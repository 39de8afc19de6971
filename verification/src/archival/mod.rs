//! Old ledger rows are moved to an object store, one JSON document per line.

use crate::clock::{date, date_text, offset_text, shift_days, shifted, with_offset};
use crate::json::{text_of_json, Json};
use crate::text::{join, joined, texts, texts_are_joined_in_order};
use vstd::prelude::*;

verus! {

/// Where rows are moved to, and when.
#[derive(Debug, Clone, PartialEq, Eq)]
pub struct ArchivalConfig {
    pub endpoint: String,
    pub bucket: String,
    pub prefix: String,
    /// The age, in days, from which rows are moved.
    pub after_days: u32,
}

pub struct ArchivalJob {
    config: ArchivalConfig,
}

/// The texts of a list of documents.
pub open spec fn documents(rows: Seq<Json>) -> Seq<Seq<char>> {
    rows.map_values(|j: Json| text_of_json(j.model()))
}

/// Rows as lines of JSON.
pub fn rows_to_ndjson(rows: &Vec<Json>) -> (r: String)
    requires
        forall|i: int| 0 <= i < rows@.len() ==> (#[trigger] rows@[i]).wf(),
    ensures
        r@ == joined(documents(rows@), "\n"@),
{
    let mut lines: Vec<String> = Vec::new();
    let mut i: usize = 0;
    assert(texts(lines@) =~= documents(rows@).take(0));
    while i < rows.len()
        invariant
            i <= rows@.len(),
            forall|k: int| 0 <= k < rows@.len() ==> (#[trigger] rows@[k]).wf(),
            texts(lines@) == documents(rows@).take(i as int),
        decreases rows@.len() - i,
    {
        let ghost before = texts(lines@);
        lines.push(rows[i].to_text());
        assert(texts(lines@) =~= before.push(documents(rows@)[i as int]));
        assert(texts(lines@) =~= documents(rows@).take(i + 1));
        i += 1;
    }
    assert(texts(lines@) =~= documents(rows@));
    join(&lines, "\n")
}

/// One run of the job: rows from before the cutoff go to an object.
#[derive(Debug, PartialEq, Eq)]
pub struct ArchivalPlan {
    pub cutoff: String,
    pub object_key: String,
    pub url: String,
}

pub open spec fn key_of_day(prefix: Seq<char>, day: Seq<char>) -> Seq<char> {
    prefix + "/"@ + day + ".ndjson"@
}

impl ArchivalJob {
    pub closed spec fn config(&self) -> ArchivalConfig {
        self.config
    }

    pub fn new(config: ArchivalConfig) -> (r: ArchivalJob)
        ensures
            r.config() == config,
    {
        ArchivalJob { config }
    }

    /// What a run at the given time does: nothing where the calendar does not
    /// reach the cutoff.
    pub fn plan(&self, now_secs: i64) -> (r: Option<ArchivalPlan>)
        ensures
            match shifted(now_secs, -(self.config().after_days as int)) {
                None => r is None,
                Some(t) => match (offset_text(t), date_text(t)) {
                    (Some(cutoff), Some(day)) => {
                        &&& r matches Some(p)
                        &&& p.cutoff@ == cutoff
                        &&& p.object_key@ == key_of_day(self.config().prefix@, day)
                        &&& p.url@ == self.config().endpoint@ + "/"@ + self.config().bucket@ + "/"@
                            + key_of_day(self.config().prefix@, day)
                    },
                    _ => r is None,
                },
            },
    {
        let t: i64 = match shift_days(now_secs, -(self.config.after_days as i64)) {
            Some(t) => t,
            None => {
                return None;
            },
        };
        let cutoff = match with_offset(t) {
            Some(cutoff) => cutoff,
            None => {
                return None;
            },
        };
        let day = match date(t) {
            Some(day) => day,
            None => {
                return None;
            },
        };
        let mut object_key = self.config.prefix.clone();
        object_key.append("/");
        object_key.append(day.as_str());
        object_key.append(".ndjson");
        let mut url = self.config.endpoint.clone();
        url.append("/");
        url.append(self.config.bucket.as_str());
        url.append("/");
        url.append(object_key.as_str());
        Some(ArchivalPlan { cutoff, object_key, url })
    }
}

/// Rows are written one to a line, in their order; a day's object stands under the prefix.
pub proof fn rows_are_written_in_order(rows: Seq<Json>, more: Seq<Json>, prefix: Seq<char>, day: Seq<char>, i: int)
    ensures
        documents(rows).len() == rows.len(),
        0 <= i < rows.len() ==> documents(rows)[i] == text_of_json(rows[i].model()),
        rows.len() > 0 && more.len() > 0 ==> joined(documents(rows + more), "\n"@) == joined(
            documents(rows),
            "\n"@,
        ) + "\n"@ + joined(documents(more), "\n"@),
        rows.len() == 1 ==> joined(documents(rows), "\n"@) == text_of_json(rows[0].model()),
        key_of_day(prefix, day) == prefix + "/"@ + day + ".ndjson"@,
{
    assert(documents(rows + more) =~= documents(rows) + documents(more));
    texts_are_joined_in_order(documents(rows), documents(more), "\n"@);
}

} // verus!
