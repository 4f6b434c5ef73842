//! Entries and their extraction from delimited records.

use vstd::prelude::*;

verus! {

/// The mathematical content of an [`Entry`]: its two character sequences.
#[verifier::ext_equal]
pub ghost struct EntryView {
    pub acronym: Seq<char>,
    pub definition: Seq<char>,
}

/// One resolved (acronym, definition) pair extracted from an input record.
#[derive(Debug)]
pub struct Entry {
    pub acronym: String,
    pub definition: String,
}

impl View for Entry {
    type V = EntryView;

    open spec fn view(&self) -> EntryView {
        EntryView { acronym: self.acronym@, definition: self.definition@ }
    }
}

impl DeepView for Entry {
    type V = EntryView;

    open spec fn deep_view(&self) -> EntryView {
        self.view()
    }
}

/// A record yields an entry exactly when both configured columns are in
/// range; short records are passed over, in order.
pub open spec fn extracted_entries(
    records: Seq<Seq<Seq<char>>>,
    acro_column: int,
    definition_column: int,
) -> Seq<EntryView>
    decreases records.len(),
{
    if records.len() == 0 {
        Seq::empty()
    } else {
        let rest = extracted_entries(records.drop_last(), acro_column, definition_column);
        let rec = records.last();
        if 0 <= acro_column < rec.len() && 0 <= definition_column < rec.len() {
            rest.push(EntryView { acronym: rec[acro_column], definition: rec[definition_column] })
        } else {
            rest
        }
    }
}

proof fn lemma_extracted_entries_concat(
    xs: Seq<Seq<Seq<char>>>,
    ys: Seq<Seq<Seq<char>>>,
    acro_column: int,
    definition_column: int,
)
    ensures
        extracted_entries(xs + ys, acro_column, definition_column) == extracted_entries(
            xs,
            acro_column,
            definition_column,
        ) + extracted_entries(ys, acro_column, definition_column),
    decreases ys.len(),
{
    let from_xs = extracted_entries(xs, acro_column, definition_column);
    if ys.len() == 0 {
        assert(xs + ys =~= xs);
        let from_ys = extracted_entries(ys, acro_column, definition_column);
        assert(from_xs + from_ys =~= from_xs);
    } else {
        lemma_extracted_entries_concat(xs, ys.drop_last(), acro_column, definition_column);
        assert((xs + ys).drop_last() =~= xs + ys.drop_last());
        assert((xs + ys).last() == ys.last());
        let from_front = extracted_entries(ys.drop_last(), acro_column, definition_column);
        let rec = ys.last();
        if 0 <= acro_column < rec.len() && 0 <= definition_column < rec.len() {
            let e = EntryView { acronym: rec[acro_column], definition: rec[definition_column] };
            assert((from_xs + from_front).push(e) =~= from_xs + from_front.push(e));
        }
    }
}

/// Law: a record that lacks one of the two configured columns contributes
/// no entry, and its presence does not disturb the entries extracted from
/// the records before or after it.
pub proof fn lemma_malformed_record_skipped(
    before: Seq<Seq<Seq<char>>>,
    malformed: Seq<Seq<char>>,
    after: Seq<Seq<Seq<char>>>,
    acro_column: int,
    definition_column: int,
)
    requires
        !(0 <= acro_column < malformed.len() && 0 <= definition_column < malformed.len()),
    ensures
        extracted_entries(before + seq![malformed] + after, acro_column, definition_column)
            == extracted_entries(before + after, acro_column, definition_column),
{
    lemma_extracted_entries_concat(before + seq![malformed], after, acro_column, definition_column);
    lemma_extracted_entries_concat(before, seq![malformed], acro_column, definition_column);
    lemma_extracted_entries_concat(before, after, acro_column, definition_column);
    assert(seq![malformed].drop_last() =~= Seq::<Seq<Seq<char>>>::empty());
    assert(seq![malformed].last() == malformed);
    assert(extracted_entries(Seq::<Seq<Seq<char>>>::empty(), acro_column, definition_column)
        =~= Seq::<EntryView>::empty());
    let from_malformed = extracted_entries(seq![malformed], acro_column, definition_column);
    assert(from_malformed =~= Seq::<EntryView>::empty());
    let from_before = extracted_entries(before, acro_column, definition_column);
    assert(from_before + from_malformed =~= from_before);
}

/// Builds the entry collection from the records: for each record whose
/// `acro_column`th and `definition_column`th fields both exist, one entry,
/// in record order; every other record is dropped silently.
pub fn extract_entries(
    records: &Vec<Vec<String>>,
    acro_column: usize,
    definition_column: usize,
) -> (entries: Vec<Entry>)
    ensures
        entries.deep_view() == extracted_entries(
            records.deep_view(),
            acro_column as int,
            definition_column as int,
        ),
{
    let ghost rdv = records.deep_view();
    let mut entries: Vec<Entry> = Vec::new();
    let n = records.len();
    let mut i: usize = 0;
    while i < n
        invariant
            rdv == records.deep_view(),
            n == records@.len(),
            i <= n,
            entries.deep_view() == extracted_entries(
                rdv.subrange(0, i as int),
                acro_column as int,
                definition_column as int,
            ),
        decreases n - i,
    {
        let rec = &records[i];
        let ghost prefix = rdv.subrange(0, i as int);
        let ghost prefix1 = rdv.subrange(0, i + 1);
        proof {
            assert(prefix1.drop_last() =~= prefix);
            assert(rdv[i as int] == records@[i as int].deep_view());
        }
        if acro_column < rec.len() && definition_column < rec.len() {
            let entry = Entry {
                acronym: rec[acro_column].clone(),
                definition: rec[definition_column].clone(),
            };
            proof {
                let rec_dv = rdv[i as int];
                assert(rec_dv.len() == rec@.len());
                assert(rec_dv[acro_column as int] == rec@[acro_column as int]@);
                assert(rec_dv[definition_column as int] == rec@[definition_column as int]@);
            }
            entries.push(entry);
        }
        i = i + 1;
        assert(entries.deep_view() =~= extracted_entries(
            rdv.subrange(0, i as int),
            acro_column as int,
            definition_column as int,
        ));
    }
    proof {
        assert(rdv.subrange(0, n as int) =~= rdv);
    }
    entries
}

} // verus!
