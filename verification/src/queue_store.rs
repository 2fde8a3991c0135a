//! The queue screen's history as it is stored in the app database: the
//! rows written for a snapshot, the snapshot rebuilt from the rows read back,
//! and the plan for restoring pending intents at start-up.

use vstd::prelude::*;
use crate::local_api_ops::str_view;
use crate::pending_batch_intent::{self, PendingBatchIntent};
use crate::text;

verus! {

/// One batch job line of the queue screen.
#[derive(Debug, Clone)]
pub struct BatchQueueItemPayload {
    pub job_id: String,
    pub status: String,
    pub label: String,
    pub progress_pct: u32,
    pub created_at: i64,
    pub finished_at: Option<i64>,
}

/// One pending intent line of the queue screen.
#[derive(Debug, Clone)]
pub struct IntentQueueItemPayload {
    pub request_id: String,
    pub label: String,
    pub file_count: u32,
    pub created_at: i64,
}

/// The queue screen's history.
#[derive(Debug)]
pub struct BatchQueueHistoryPayload {
    pub items: Vec<BatchQueueItemPayload>,
    pub active_batch_job_id: Option<String>,
    pub intent_items: Vec<IntentQueueItemPayload>,
    pub active_intent_request_id: Option<String>,
}

/// A row of `queue_batch_items`.
#[derive(Debug)]
pub struct BatchItemRow {
    pub job_id: String,
    pub status: String,
    pub label: String,
    pub progress_pct: i64,
    pub created_at: i64,
    pub finished_at: Option<i64>,
    pub sort_order: i64,
}

/// A row of `queue_intent_items`.
#[derive(Debug)]
pub struct IntentItemRow {
    pub request_id: String,
    pub label: String,
    pub file_count: i64,
    pub created_at: i64,
    pub sort_order: i64,
}

/// What the database holds of the queue history: the item rows in
/// `sort_order`, the number of rows of `queue_ui_state` and the two
/// active ids stored there.
#[derive(Debug)]
pub struct QueueTables {
    pub batch_rows: Vec<BatchItemRow>,
    pub intent_rows: Vec<IntentItemRow>,
    pub ui_row_count: usize,
    pub active_batch_job_id: Option<String>,
    pub active_intent_request_id: Option<String>,
}

pub type BatchItemView = (Seq<char>, Seq<char>, Seq<char>, u32, i64, Option<i64>);

pub type IntentItemView = (Seq<char>, Seq<char>, u32, i64);

pub open spec fn batch_item_view(i: BatchQueueItemPayload) -> BatchItemView {
    (i.job_id@, i.status@, i.label@, i.progress_pct, i.created_at, i.finished_at)
}

pub open spec fn intent_item_view(i: IntentQueueItemPayload) -> IntentItemView {
    (i.request_id@, i.label@, i.file_count, i.created_at)
}

/// A batch row as the screen shows it (`progress_pct` read back as `u32`).
pub open spec fn batch_row_item(r: BatchItemRow) -> BatchItemView {
    (r.job_id@, r.status@, r.label@, r.progress_pct as u32, r.created_at, r.finished_at)
}

pub open spec fn intent_row_item(r: IntentItemRow) -> IntentItemView {
    (r.request_id@, r.label@, r.file_count as u32, r.created_at)
}

pub open spec fn batch_items_view(v: Seq<BatchQueueItemPayload>) -> Seq<BatchItemView> {
    v.map_values(|i: BatchQueueItemPayload| batch_item_view(i))
}

pub open spec fn intent_items_view(v: Seq<IntentQueueItemPayload>) -> Seq<IntentItemView> {
    v.map_values(|i: IntentQueueItemPayload| intent_item_view(i))
}

/// The history, by value.
pub open spec fn payload_view(p: BatchQueueHistoryPayload) -> (
    Seq<BatchItemView>,
    Option<Seq<char>>,
    Seq<IntentItemView>,
    Option<Seq<char>>,
) {
    (
        batch_items_view(p.items@),
        str_view(p.active_batch_job_id),
        intent_items_view(p.intent_items@),
        str_view(p.active_intent_request_id),
    )
}

/// The history the tables hold: none when all three tables are empty.
pub open spec fn loaded_view(t: QueueTables) -> Option<
    (Seq<BatchItemView>, Option<Seq<char>>, Seq<IntentItemView>, Option<Seq<char>>),
> {
    if t.batch_rows@.len() == 0 && t.intent_rows@.len() == 0 && t.ui_row_count == 0 {
        None
    } else {
        Some(
            (
                t.batch_rows@.map_values(|r: BatchItemRow| batch_row_item(r)),
                str_view(t.active_batch_job_id),
                t.intent_rows@.map_values(|r: IntentItemRow| intent_row_item(r)),
                str_view(t.active_intent_request_id),
            ),
        )
    }
}

fn copy_opt(o: &Option<String>) -> (r: Option<String>)
    ensures
        str_view(r) == str_view(*o),
{
    match o {
        Some(s) => Some(s.clone()),
        None => None,
    }
}

/// The queue history stored in the tables (`None` when they are all empty).
pub fn load_queue_snapshot(t: &QueueTables) -> (r: Option<BatchQueueHistoryPayload>)
    ensures
        match r {
            None => loaded_view(*t) is None,
            Some(p) => loaded_view(*t) == Some(payload_view(p)),
        },
{
    if t.batch_rows.len() == 0 && t.intent_rows.len() == 0 && t.ui_row_count == 0 {
        return None;
    }
    let mut items: Vec<BatchQueueItemPayload> = Vec::new();
    let mut i: usize = 0;
    while i < t.batch_rows.len()
        invariant
            i <= t.batch_rows@.len(),
            batch_items_view(items@) == t.batch_rows@.take(i as int).map_values(
                |r: BatchItemRow| batch_row_item(r),
            ),
        decreases t.batch_rows@.len() - i,
    {
        let row = &t.batch_rows[i];
        let it = BatchQueueItemPayload {
            job_id: row.job_id.clone(),
            status: row.status.clone(),
            label: row.label.clone(),
            progress_pct: row.progress_pct as u32,
            created_at: row.created_at,
            finished_at: row.finished_at,
        };
        let ghost before = items@;
        items.push(it);
        assert(batch_items_view(items@) =~= batch_items_view(before).push(batch_item_view(it)));
        assert(t.batch_rows@.take(i + 1).map_values(|r: BatchItemRow| batch_row_item(r)) =~= t.batch_rows@.take(
            i as int,
        ).map_values(|r: BatchItemRow| batch_row_item(r)).push(batch_row_item(t.batch_rows@[i as int])));
        i += 1;
    }
    let mut intent_items: Vec<IntentQueueItemPayload> = Vec::new();
    let mut j: usize = 0;
    while j < t.intent_rows.len()
        invariant
            j <= t.intent_rows@.len(),
            intent_items_view(intent_items@) == t.intent_rows@.take(j as int).map_values(
                |r: IntentItemRow| intent_row_item(r),
            ),
        decreases t.intent_rows@.len() - j,
    {
        let row = &t.intent_rows[j];
        let it = IntentQueueItemPayload {
            request_id: row.request_id.clone(),
            label: row.label.clone(),
            file_count: row.file_count as u32,
            created_at: row.created_at,
        };
        let ghost before = intent_items@;
        intent_items.push(it);
        assert(intent_items_view(intent_items@) =~= intent_items_view(before).push(intent_item_view(it)));
        assert(t.intent_rows@.take(j + 1).map_values(|r: IntentItemRow| intent_row_item(r)) =~= t.intent_rows@.take(
            j as int,
        ).map_values(|r: IntentItemRow| intent_row_item(r)).push(intent_row_item(t.intent_rows@[j as int])));
        j += 1;
    }
    assert(t.batch_rows@.take(t.batch_rows@.len() as int) =~= t.batch_rows@);
    assert(t.intent_rows@.take(t.intent_rows@.len() as int) =~= t.intent_rows@);
    Some(
        BatchQueueHistoryPayload {
            items,
            active_batch_job_id: copy_opt(&t.active_batch_job_id),
            intent_items,
            active_intent_request_id: copy_opt(&t.active_intent_request_id),
        },
    )
}

/// The row written for the `i`-th batch item.
pub open spec fn batch_row_of(it: BatchItemView, i: int) -> (Seq<char>, Seq<char>, Seq<char>, i64, i64, Option<i64>, i64) {
    (it.0, it.1, it.2, it.3 as i64, it.4, it.5, i as i64)
}

pub open spec fn batch_row_view(r: BatchItemRow) -> (Seq<char>, Seq<char>, Seq<char>, i64, i64, Option<i64>, i64) {
    (r.job_id@, r.status@, r.label@, r.progress_pct, r.created_at, r.finished_at, r.sort_order)
}

pub open spec fn intent_row_of(it: IntentItemView, i: int) -> (Seq<char>, Seq<char>, i64, i64, i64) {
    (it.0, it.1, it.2 as i64, it.3, i as i64)
}

pub open spec fn intent_row_view(r: IntentItemRow) -> (Seq<char>, Seq<char>, i64, i64, i64) {
    (r.request_id@, r.label@, r.file_count, r.created_at, r.sort_order)
}

/// The rows a snapshot is saved as: one per item, `sort_order` its position.
pub fn queue_rows_of(p: &BatchQueueHistoryPayload) -> (r: (Vec<BatchItemRow>, Vec<IntentItemRow>))
    requires
        p.items@.len() <= i64::MAX,
        p.intent_items@.len() <= i64::MAX,
    ensures
        r.0@.len() == p.items@.len(),
        forall|i: int| 0 <= i < r.0@.len() ==> batch_row_view(#[trigger] r.0@[i]) == batch_row_of(
            batch_item_view(p.items@[i]),
            i,
        ),
        r.1@.len() == p.intent_items@.len(),
        forall|i: int| 0 <= i < r.1@.len() ==> intent_row_view(#[trigger] r.1@[i]) == intent_row_of(
            intent_item_view(p.intent_items@[i]),
            i,
        ),
{
    let mut rows: Vec<BatchItemRow> = Vec::new();
    let mut i: usize = 0;
    while i < p.items.len()
        invariant
            i <= p.items@.len() <= i64::MAX,
            rows@.len() == i,
            forall|k: int| 0 <= k < i ==> batch_row_view(#[trigger] rows@[k]) == batch_row_of(
                batch_item_view(p.items@[k]),
                k,
            ),
        decreases p.items@.len() - i,
    {
        let it = &p.items[i];
        rows.push(
            BatchItemRow {
                job_id: it.job_id.clone(),
                status: it.status.clone(),
                label: it.label.clone(),
                progress_pct: it.progress_pct as i64,
                created_at: it.created_at,
                finished_at: it.finished_at,
                sort_order: i as i64,
            },
        );
        i += 1;
    }
    let mut irows: Vec<IntentItemRow> = Vec::new();
    let mut j: usize = 0;
    while j < p.intent_items.len()
        invariant
            j <= p.intent_items@.len() <= i64::MAX,
            irows@.len() == j,
            forall|k: int| 0 <= k < j ==> intent_row_view(#[trigger] irows@[k]) == intent_row_of(
                intent_item_view(p.intent_items@[k]),
                k,
            ),
        decreases p.intent_items@.len() - j,
    {
        let it = &p.intent_items[j];
        irows.push(
            IntentItemRow {
                request_id: it.request_id.clone(),
                label: it.label.clone(),
                file_count: it.file_count as i64,
                created_at: it.created_at,
                sort_order: j as i64,
            },
        );
        j += 1;
    }
    (rows, irows)
}

/// Saving a snapshot and loading it back gives the same history, provided
/// the tables then hold something (any item, an active id, or another
/// setting row); with nothing at all, loading gives none.
pub proof fn law_saved_snapshot_loads_back(p: BatchQueueHistoryPayload, t: QueueTables)
    requires
        t.batch_rows@.len() == p.items@.len(),
        forall|i: int| 0 <= i < t.batch_rows@.len() ==> batch_row_view(#[trigger] t.batch_rows@[i]) == batch_row_of(
            batch_item_view(p.items@[i]),
            i,
        ),
        t.intent_rows@.len() == p.intent_items@.len(),
        forall|i: int| 0 <= i < t.intent_rows@.len() ==> intent_row_view(#[trigger] t.intent_rows@[i]) == intent_row_of(
            intent_item_view(p.intent_items@[i]),
            i,
        ),
        str_view(t.active_batch_job_id) == str_view(p.active_batch_job_id),
        str_view(t.active_intent_request_id) == str_view(p.active_intent_request_id),
        p.active_batch_job_id is Some || p.active_intent_request_id is Some ==> t.ui_row_count > 0,
    ensures
        t.batch_rows@.len() > 0 || t.intent_rows@.len() > 0 || t.ui_row_count > 0 ==> loaded_view(t)
            == Some(payload_view(p)),
{
    if t.batch_rows@.len() > 0 || t.intent_rows@.len() > 0 || t.ui_row_count > 0 {
        assert(t.batch_rows@.map_values(|r: BatchItemRow| batch_row_item(r)) =~= batch_items_view(p.items@)) by {
            assert forall|i: int| 0 <= i < t.batch_rows@.len() implies #[trigger] batch_row_item(
                t.batch_rows@[i],
            ) == batch_item_view(p.items@[i]) by {
                assert(batch_row_view(t.batch_rows@[i]) == batch_row_of(batch_item_view(p.items@[i]), i));
            }
        }
        assert(t.intent_rows@.map_values(|r: IntentItemRow| intent_row_item(r)) =~= intent_items_view(
            p.intent_items@,
        )) by {
            assert forall|i: int| 0 <= i < t.intent_rows@.len() implies #[trigger] intent_row_item(
                t.intent_rows@[i],
            ) == intent_item_view(p.intent_items@[i]) by {
                assert(intent_row_view(t.intent_rows@[i]) == intent_row_of(
                    intent_item_view(p.intent_items@[i]),
                    i,
                ));
            }
        }
    }
}

/// A row of `intent_pending_payload`.
#[derive(Debug)]
pub struct StoredIntentRow {
    pub request_id: String,
    pub inputs_json: String,
    pub output_dir: Option<String>,
    pub staging_dir: Option<String>,
    pub created_unix: i64,
}

/// What `serde_json::from_str::<Vec<String>>` gives for a text (`None` when it refuses it).
pub uninterp spec fn json_string_array_of(s: Seq<char>) -> Option<Seq<Seq<char>>>;

/// What `serde_json::to_string` writes for a list of strings.
pub uninterp spec fn json_text_of_strings(v: Seq<Seq<char>>) -> Seq<char>;

/// `serde_json::from_str::<Vec<String>>`.
#[verifier::external_body]
pub(crate) fn parse_json_string_array(s: &str) -> (r: Option<Vec<String>>)
    ensures
        match r {
            Some(v) => json_string_array_of(s@) == Some(v@.map_values(|x: String| x@)),
            None => json_string_array_of(s@) is None,
        },
{
    serde_json::from_str::<Vec<String>>(s).ok()
}

/// `serde_json::to_string` of a list of strings (it cannot fail for strings).
#[verifier::external_body]
pub(crate) fn json_string_array(v: &[String]) -> (r: String)
    ensures
        r@ == json_text_of_strings(v@.map_values(|x: String| x@)),
{
    match serde_json::to_string(v) {
        Ok(t) => t,
        Err(_) => String::new(),
    }
}

/// What start-up does with a stored intent.
#[derive(Debug)]
pub enum StoredIntentAction {
    /// `inputs_json` is not a list of strings: the row is deleted.
    DropCorrupt,
    /// The intent has expired: its staging directory (if any) and the row are deleted.
    DropExpired { staging_dir: Option<String> },
    /// The intent is restored in memory.
    Restore(PendingBatchIntent),
}

/// The decision for one stored intent at time `now`, for a limit of `max_secs`.
pub open spec fn stored_intent_outcome(row: StoredIntentRow, now: u64, max_secs: u64) -> Option<bool> {
    match json_string_array_of(row.inputs_json@) {
        None => None,
        Some(_) => Some(pending_batch_intent::expired_at(row.created_unix as u64, now, max_secs)),
    }
}

/// Decides what to do with a stored intent: drop it if its paths cannot be
/// read, drop it (and its staging directory) if it has expired, else restore it.
pub fn classify_stored_intent(row: StoredIntentRow, now: u64, max_secs: u64) -> (r: StoredIntentAction)
    ensures
        match r {
            StoredIntentAction::DropCorrupt => stored_intent_outcome(row, now, max_secs) is None,
            StoredIntentAction::DropExpired { staging_dir } => stored_intent_outcome(row, now, max_secs)
                == Some(true) && staging_dir == row.staging_dir,
            StoredIntentAction::Restore(intent) => {
                &&& stored_intent_outcome(row, now, max_secs) == Some(false)
                &&& json_string_array_of(row.inputs_json@) == Some(
                    intent.inputs@.map_values(|x: String| x@),
                )
                &&& intent.output_dir == row.output_dir
                &&& intent.staging_dir == row.staging_dir
                &&& intent.created_unix == row.created_unix as u64
            },
        },
{
    let inputs = match parse_json_string_array(row.inputs_json.as_str()) {
        Some(v) => v,
        None => {
            return StoredIntentAction::DropCorrupt;
        },
    };
    let intent = PendingBatchIntent::restore_from_storage(
        inputs,
        row.output_dir,
        row.staging_dir,
        row.created_unix as u64,
    );
    if intent.is_expired_at(now, max_secs) {
        StoredIntentAction::DropExpired { staging_dir: intent.staging_dir }
    } else {
        StoredIntentAction::Restore(intent)
    }
}

/// The row an intent is stored as: its paths as a JSON list, its
/// directories, and its creation time.
pub fn intent_payload_row(request_id: &str, intent: &PendingBatchIntent) -> (r: StoredIntentRow)
    ensures
        r.request_id@ == request_id@,
        r.inputs_json@ == json_text_of_strings(intent.inputs@.map_values(|x: String| x@)),
        str_view(r.output_dir) == str_view(intent.output_dir),
        str_view(r.staging_dir) == str_view(intent.staging_dir),
        r.created_unix == intent.created_unix as i64,
{
    StoredIntentRow {
        request_id: text::string_of(&text::chars_of(request_id)),
        inputs_json: json_string_array(intent.inputs.as_slice()),
        output_dir: match &intent.output_dir {
            Some(d) => Some(d.clone()),
            None => None,
        },
        staging_dir: match &intent.staging_dir {
            Some(d) => Some(d.clone()),
            None => None,
        },
        created_unix: intent.created_unix as i64,
    }
}

} // verus!
