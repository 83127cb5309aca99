//! Purge-and-bulk-insert reconciliation: one run purges the store, then
//! defensively re-inserts every parsed event, and reports what happened in
//! an `ImportSummary`. The source file is a full authoritative snapshot, so
//! the data set is replaced whole rather than diffed.

use vstd::prelude::*;
use crate::decode::{decode, clean_text_of, encoding_known};
use crate::event::{Event, EventModel, models};
use crate::parse::{parse, events_of};
use crate::store::{Store, insert_all, insert_new, unique_ids, contains_id};

verus! {

/// The result of one reconciliation run: how many rows the purge removed, a
/// human-readable outcome, and whether the run succeeded.
#[derive(Debug, PartialEq)]
pub struct ImportSummary {
    pub deleted_count: usize,
    pub message: String,
    pub success: bool,
}

/// What a full reconciliation leaves in an initially purged store: each
/// event in source order, later rows with an already-seen id skipped.
pub open spec fn reconciled(evs: Seq<EventModel>) -> Seq<EventModel> {
    insert_all(Seq::empty(), evs)
}

/// The summary of a run that could not read or decode the source bytes: no
/// store mutation has happened.
pub fn summary_read_failure() -> (s: ImportSummary)
    ensures
        s.deleted_count == 0,
        !s.success,
        s.message@ == "Could not read csv file"@,
{
    ImportSummary {
        deleted_count: 0,
        message: String::from_str("Could not read csv file"),
        success: false,
    }
}

/// The summary of a run whose text failed to parse: no store mutation has
/// happened.
pub fn summary_parse_failure() -> (s: ImportSummary)
    ensures
        s.deleted_count == 0,
        !s.success,
        s.message@ == "Could not parse csv file"@,
{
    ImportSummary {
        deleted_count: 0,
        message: String::from_str("Could not parse csv file"),
        success: false,
    }
}

/// The summary of a run that purged the store but then failed to insert:
/// the store is left partially updated, and the purge count is reported.
/// The in-memory store cannot fail mid-run, so `update_db` itself never
/// yields this outcome; it stands for drivers whose store can.
pub fn summary_insert_failure(deleted: usize) -> (s: ImportSummary)
    ensures
        s.deleted_count == deleted,
        !s.success,
        s.message@ == "Purged db, but cannot read in new data."@,
{
    ImportSummary {
        deleted_count: deleted,
        message: String::from_str("Purged db, but cannot read in new data."),
        success: false,
    }
}

/// The summary of a fully successful run.
pub fn summary_success(deleted: usize) -> (s: ImportSummary)
    ensures
        s.deleted_count == deleted,
        s.success,
        s.message@ == "Successfully updated database with new data."@,
{
    ImportSummary {
        deleted_count: deleted,
        message: String::from_str("Successfully updated database with new data."),
        success: true,
    }
}

/// One reconciliation run against parsed events: purge everything, then
/// defensively insert each event in source order. The store ends holding
/// exactly the parsed events (first occurrence of each id), whatever it
/// held before; the summary reports the purge count and success.
pub fn reconcile(store: &mut Store, events: &Vec<Event>) -> (summary: ImportSummary)
    requires
        old(store).inv(),
    ensures
        final(store).inv(),
        final(store)@ == reconciled(models(events@)),
        summary.deleted_count == old(store)@.len(),
        summary.success,
        summary.message@ == "Successfully updated database with new data."@,
{
    let purged = store.purge_events();
    let deleted = purged.len();
    store.create_many_events(events);
    summary_success(deleted)
}

/// One full refresh: decode the raw bytes under the configured encoding,
/// parse the clean text, and reconcile the store against the parsed events.
/// A decode or parse failure aborts the run before any store mutation, so
/// the existing data set stays untouched.
pub fn update_db(store: &mut Store, raw_bytes: &Vec<u8>, encoding_label: &str) -> (summary:
    ImportSummary)
    requires
        old(store).inv(),
        raw_bytes@.len() <= usize::MAX / 4,
    ensures
        final(store).inv(),
        !encoding_known(encoding_label@) ==> final(store)@ == old(store)@
            && summary.deleted_count == 0 && !summary.success && summary.message@
            == "Could not read csv file"@,
        encoding_known(encoding_label@) && events_of(
            clean_text_of(encoding_label@, raw_bytes@),
        ) is None ==> final(store)@ == old(store)@ && summary.deleted_count == 0
            && !summary.success && summary.message@ == "Could not parse csv file"@,
        (encoding_known(encoding_label@) && events_of(
            clean_text_of(encoding_label@, raw_bytes@),
        ) matches Some(evs)) ==> final(store)@ == reconciled(
            events_of(clean_text_of(encoding_label@, raw_bytes@))->Some_0,
        ) && summary.deleted_count == old(store)@.len() && summary.success && summary.message@
            == "Successfully updated database with new data."@,
{
    match decode(raw_bytes, encoding_label) {
        Err(_) => summary_read_failure(),
        Ok(text) => {
            match parse(&text) {
                Err(_) => summary_parse_failure(),
                Ok(events) => reconcile(store, &events),
            }
        }
    }
}

/// Defensive insertion preserves id uniqueness.
proof fn lemma_insert_all_preserves_unique(s: Seq<EventModel>, evs: Seq<EventModel>)
    requires
        unique_ids(s),
    ensures
        unique_ids(insert_all(s, evs)),
    decreases evs.len(),
{
    if evs.len() > 0 {
        let e = evs[0];
        let s2 = insert_new(s, e);
        assert(unique_ids(s2)) by {
            if !contains_id(s, e.event_id) {
                assert forall|a: int, b: int| 0 <= a < b < s2.len() implies s2[a].event_id
                    != s2[b].event_id by {
                    if b < s.len() {
                    } else {
                        assert(s2[a] == s[a]);
                        assert(s2[b] == e);
                    }
                }
            }
        }
        lemma_insert_all_preserves_unique(s2, evs.skip(1));
    }
}

/// Inserting records whose ids are fresh (the whole of `acc + evs` has
/// unique ids) just appends them.
proof fn lemma_insert_all_fresh(acc: Seq<EventModel>, evs: Seq<EventModel>)
    requires
        unique_ids(acc + evs),
    ensures
        insert_all(acc, evs) == acc + evs,
    decreases evs.len(),
{
    if evs.len() == 0 {
        assert(acc + evs =~= acc);
    } else {
        let e = evs[0];
        let whole = acc + evs;
        assert(whole[acc.len() as int] == e);
        assert(!contains_id(acc, e.event_id)) by {
            if contains_id(acc, e.event_id) {
                let i = choose|i: int|
                    0 <= i < acc.len() && acc[i].event_id == e.event_id;
                assert(whole[i] == acc[i]);
            }
        }
        let acc2 = acc.push(e);
        assert(insert_new(acc, e) == acc2);
        assert(acc2 + evs.skip(1) =~= acc + evs);
        lemma_insert_all_fresh(acc2, evs.skip(1));
        assert(insert_all(acc, evs) == insert_all(acc2, evs.skip(1)));
    }
}

/// The reconciled data set has unique ids.
pub proof fn lemma_reconciled_unique(evs: Seq<EventModel>)
    ensures
        unique_ids(reconciled(evs)),
{
    lemma_insert_all_preserves_unique(Seq::empty(), evs);
}

/// Re-running reconciliation on identical input is idempotent: what a run
/// leaves in the store, a second run over the same parsed events leaves
/// unchanged, whatever the store held in between.
pub proof fn lemma_reconcile_idempotent(evs: Seq<EventModel>)
    ensures
        reconciled(reconciled(evs)) == reconciled(evs),
{
    let r = reconciled(evs);
    lemma_reconciled_unique(evs);
    assert(Seq::<EventModel>::empty() + r =~= r);
    lemma_insert_all_fresh(Seq::empty(), r);
}

/// Events with pairwise-distinct ids — as rows of a source file carry, each
/// row's id being unique and stable — reconcile to exactly themselves. A
/// second run over such a file therefore purges exactly as many records as
/// the file parses to.
pub proof fn lemma_reconciled_of_unique(evs: Seq<EventModel>)
    requires
        unique_ids(evs),
    ensures
        reconciled(evs) == evs,
        reconciled(evs).len() == evs.len(),
{
    assert(Seq::<EventModel>::empty() + evs =~= evs);
    lemma_insert_all_fresh(Seq::empty(), evs);
}

} // verus!
