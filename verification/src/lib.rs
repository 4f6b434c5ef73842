//! A lookup tool for delimited acronym files: given a query and the
//! records of such a file, it resolves a configuration from flags,
//! environment values and defaults, extracts (acronym, definition)
//! entries, matches the query case-insensitively — exactly first, by
//! substring as the fallback — and renders one output line per match.

use vstd::prelude::*;

pub mod config;
pub mod entry;
pub mod matching;
pub mod present;
pub mod text;

pub use config::Config;
pub use entry::Entry;

verus! {

use crate::config::ConfigView;
use crate::entry::EntryView;
use crate::entry::extract_entries;
use crate::entry::extracted_entries;
use crate::matching::find_matching_entries;
use crate::matching::matches_of;
use crate::present::contains_reset;
use crate::present::line_carries_definition;
use crate::present::plain_line;
use crate::present::styled_line_ok;

/// The records the extractor sees: all of them, or all but the first when
/// it is a header to be skipped.
pub open spec fn body_records(records: Seq<Seq<Seq<char>>>, header: bool) -> Seq<Seq<Seq<char>>> {
    if header && records.len() > 0 {
        records.drop_first()
    } else {
        records
    }
}

/// The entries one run reports: extracted from the body records with the
/// configured columns, then matched against the query.
pub open spec fn matched_entries(cfg: ConfigView, records: Seq<Seq<Seq<char>>>) -> Seq<EntryView> {
    matches_of(
        extracted_entries(
            body_records(records, cfg.header),
            cfg.acro_column,
            cfg.definition_column,
        ),
        cfg.acronym,
    )
}

/// The run's unstyled output, one line per matched entry, in match order.
pub open spec fn output_lines(cfg: ConfigView, records: Seq<Seq<Seq<char>>>) -> Seq<Seq<char>> {
    matched_entries(cfg, records).map_values(|e: EntryView| plain_line(e))
}

/// What `run` promises of its lines: one per matched entry, in order;
/// without styling each line is the entry's plain line, and with styling
/// each line carries the entry's definition unchanged and — for an acronym
/// free of reset sequences — the acronym intact between styling codes.
pub open spec fn rendered_lines_ok(
    lines: Seq<Seq<char>>,
    entries: Seq<EntryView>,
    color: bool,
) -> bool {
    &&& lines.len() == entries.len()
    &&& (!color ==> lines == entries.map_values(|e: EntryView| plain_line(e)))
    &&& (color ==> forall|i: int|
        0 <= i < entries.len() ==> line_carries_definition(#[trigger] lines[i], entries[i]))
    &&& (color ==> forall|i: int|
        0 <= i < entries.len() && !contains_reset(entries[i].acronym) ==> styled_line_ok(
            #[trigger] lines[i],
            entries[i],
        ))
}

/// One whole run on records already read from the input: skip the header
/// record when the configuration says so, extract the entries, match the
/// query, and render one line per match, in match order.
pub fn run(config: &Config, records: Vec<Vec<String>>) -> (lines: Vec<String>)
    ensures
        rendered_lines_ok(
            lines.deep_view(),
            matched_entries(config@, records.deep_view()),
            config.color,
        ),
        !config.color ==> lines.deep_view() == output_lines(config@, records.deep_view()),
{
    let ghost rdv = records.deep_view();
    let mut records = records;
    if config.header && records.len() > 0 {
        records.remove(0);
    }
    proof {
        assert(records.deep_view() =~= body_records(rdv, config@.header));
    }
    let entries = extract_entries(&records, config.acro_column, config.definition_column);
    let matching = find_matching_entries(&entries, config.acronym.as_str());
    let ghost ms = matched_entries(config@, rdv);
    proof {
        assert(matching.deep_view() == ms);
    }
    let color = config.color;
    let n = matching.len();
    let mut lines: Vec<String> = Vec::new();
    let mut i: usize = 0;
    while i < n
        invariant
            ms == matching.deep_view(),
            n == matching@.len(),
            i <= n,
            lines.deep_view().len() == i,
            !color ==> forall|j: int|
                0 <= j < i ==> #[trigger] lines.deep_view()[j] == plain_line(ms[j]),
            color ==> forall|j: int|
                0 <= j < i ==> line_carries_definition(#[trigger] lines.deep_view()[j], ms[j]),
            color ==> forall|j: int|
                0 <= j < i && !contains_reset(ms[j].acronym) ==> styled_line_ok(
                    #[trigger] lines.deep_view()[j],
                    ms[j],
                ),
        decreases n - i,
    {
        let line = matching[i].render(color);
        proof {
            assert(matching@[i as int]@ == ms[i as int]);
        }
        let ghost prev = lines.deep_view();
        lines.push(line);
        proof {
            assert(lines.deep_view() =~= prev.push(line@));
            assert(lines.deep_view()[i as int] == line@);
        }
        i = i + 1;
    }
    proof {
        if !color {
            assert(lines.deep_view() =~= ms.map_values(|e: EntryView| plain_line(e)));
        }
    }
    lines
}

/// Law: the output is a function of the configuration and the records
/// alone, so re-running the program on the same input yields an identical
/// sequence of lines.
pub proof fn lemma_rerun_identical(
    cfg: ConfigView,
    records: Seq<Seq<Seq<char>>>,
    first: Seq<Seq<char>>,
    second: Seq<Seq<char>>,
)
    requires
        first == output_lines(cfg, records),
        second == output_lines(cfg, records),
    ensures
        first == second,
{
}

} // verus!
