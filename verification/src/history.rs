//! The history of memories, as rows of a table.
use vstd::prelude::*;

use crate::clock::{
    could_be_now, in_rfc3339_range, rfc3339_instant, rfc3339_text, Instant, Timestamp,
};
use crate::ids::{
    is_random_uuid, new_uuid, uuid_or_default, uuid_or_nil, uuid_text, uuid_text_is_read_back,
    uuid_to_string,
};
use crate::memory::protocol::{Change, ChangeView};
use crate::models::{
    event_named, event_text, events_have_their_names, EventType, HistoryEntry, HistoryEntryView,
};
use crate::views::{copy_opt, opt_view};

verus! {

/// A row of the table.
#[derive(Debug)]
pub struct HistoryRow {
    pub id: String,
    pub memory_id: String,
    pub previous_content: Option<String>,
    pub new_content: String,
    pub event: String,
    pub timestamp: String,
    pub user_id: Option<String>,
    pub agent_id: Option<String>,
    pub request_id: Option<String>,
}

/// [`HistoryRow`], as contracts see it.
#[verifier::ext_equal]
pub struct HistoryRowView {
    pub id: Seq<char>,
    pub memory_id: Seq<char>,
    pub previous_content: Option<Seq<char>>,
    pub new_content: Seq<char>,
    pub event: Seq<char>,
    pub timestamp: Seq<char>,
    pub user_id: Option<Seq<char>>,
    pub agent_id: Option<Seq<char>>,
    pub request_id: Option<Seq<char>>,
}

impl View for HistoryRow {
    type V = HistoryRowView;

    open spec fn view(&self) -> HistoryRowView {
        HistoryRowView {
            id: self.id@,
            memory_id: self.memory_id@,
            previous_content: opt_view(self.previous_content),
            new_content: self.new_content@,
            event: self.event@,
            timestamp: self.timestamp@,
            user_id: opt_view(self.user_id),
            agent_id: opt_view(self.agent_id),
            request_id: opt_view(self.request_id),
        }
    }
}

/// The row for a change, with its time as a text.
pub open spec fn row_with(change: ChangeView, id: u128, timestamp: Seq<char>) -> HistoryRowView {
    HistoryRowView {
        id: uuid_text(id),
        memory_id: uuid_text(change.memory_id),
        previous_content: change.previous_content,
        new_content: change.new_content,
        event: event_text(change.event),
        timestamp,
        user_id: change.user_id,
        agent_id: change.agent_id,
        request_id: change.request_id,
    }
}

/// The row for a change.
pub open spec fn row_of(change: ChangeView, id: u128) -> HistoryRowView {
    row_with(change, id, rfc3339_text(change.timestamp.0, change.timestamp.1))
}

/// The change that a row tells of, with the time that was read in it, if any. An identifier that is
/// no UUID counts as the nil UUID, an event that is none that there is as none, and a time that
/// makes no sense as the present one.
pub open spec fn entry_with(
    row: HistoryRowView,
    told: Option<Instant>,
    now: Instant,
) -> HistoryEntryView {
    HistoryEntryView {
        id: uuid_or_nil(row.id),
        memory_id: uuid_or_nil(row.memory_id),
        previous_content: row.previous_content,
        new_content: row.new_content,
        event: event_named(row.event),
        timestamp: match told {
            Some(time) => time,
            None => now,
        },
    }
}

/// The change that a row tells of.
pub open spec fn entry_of(row: HistoryRowView, now: Instant) -> HistoryEntryView {
    entry_with(row, rfc3339_instant(row.timestamp), now)
}

/// The change with an identifier, as the history gives it back.
pub open spec fn entry_for(change: ChangeView, id: u128) -> HistoryEntryView {
    HistoryEntryView {
        id,
        memory_id: change.memory_id,
        previous_content: change.previous_content,
        new_content: change.new_content,
        event: change.event,
        timestamp: change.timestamp,
    }
}

/// Makes the row for a change, under an identifier and with its time as a text.
pub fn fill_row(change: &Change, id: u128, timestamp: String) -> (r: HistoryRow)
    ensures
        r@ == row_with(change@, id, timestamp@),
{
    HistoryRow {
        id: uuid_to_string(id),
        memory_id: uuid_to_string(change.memory_id),
        previous_content: copy_opt(&change.previous_content),
        new_content: change.new_content.clone(),
        event: change.event.to_text(),
        timestamp,
        user_id: copy_opt(&change.user_id),
        agent_id: copy_opt(&change.agent_id),
        request_id: copy_opt(&change.request_id),
    }
}

/// Makes the row for a change, under an identifier. The row tells of the change as it was, if that
/// happened in a year that RFC 3339 can write.
pub fn row_at(change: &Change, id: u128) -> (r: HistoryRow)
    ensures
        r@ == row_of(change@, id),
        in_rfc3339_range(change@.timestamp) ==> forall|now: Instant| #[trigger]
            entry_of(r@, now) == entry_for(change@, id),
{
    let r = fill_row(change, id, change.timestamp.to_rfc3339());
    proof {
        uuid_text_is_read_back(id);
        uuid_text_is_read_back(change.memory_id);
        events_have_their_names(change.event);
    }
    r
}

/// Makes the row for a change, under an identifier that is drawn.
pub fn new_row(change: &Change) -> (r: HistoryRow)
    ensures
        exists|id: u128|
            is_random_uuid(id) && r@ == #[trigger] row_of(change@, id) && (in_rfc3339_range(
                change@.timestamp,
            ) ==> forall|now: Instant| #[trigger] entry_of(r@, now) == entry_for(change@, id)),
{
    let id = new_uuid();
    let r = row_at(change, id);
    assert(is_random_uuid(id) && r@ == row_of(change@, id));
    r
}

/// Reads the change that a row tells of, with the time that was read in it, if any.
pub fn fill_entry(row: &HistoryRow, told: Option<Timestamp>, now: Timestamp) -> (r: HistoryEntry)
    ensures
        r@ == entry_with(row@, opt_view(told), now@),
{
    HistoryEntry {
        id: uuid_or_default(row.id.as_str()),
        memory_id: uuid_or_default(row.memory_id.as_str()),
        previous_content: copy_opt(&row.previous_content),
        new_content: row.new_content.clone(),
        event: EventType::from_text(row.event.as_str()),
        timestamp: match told {
            Some(time) => time,
            None => now,
        },
    }
}

/// Reads the change that a row tells of. A time that makes no sense is the given one.
pub fn read_row_at(row: &HistoryRow, now: Timestamp) -> (r: HistoryEntry)
    ensures
        r@ == entry_of(row@, now@),
{
    fill_entry(row, Timestamp::parse_rfc3339(row.timestamp.as_str()), now)
}

/// Reads the change that a row tells of. A time that makes no sense is the present one.
pub fn read_row(row: &HistoryRow) -> (r: HistoryEntry)
    ensures
        exists|now: Instant| could_be_now(now) && r@ == #[trigger] entry_of(row@, now),
{
    let now = Timestamp::now();
    let r = read_row_at(row, now);
    assert(could_be_now(now@) && r@ == entry_of(row@, now@));
    r
}

/// A row tells of its change: what was read in it with its time is the change, for the same memory,
/// with the content before and after, what happened and when. The row is under its own identifier,
/// and is kept for those for whom the memory is.
pub proof fn rows_tell_of_their_change(
    change: ChangeView,
    id: u128,
    text: Seq<char>,
    now: Instant,
)
    ensures
        ({
            let row = row_with(change, id, text);
            let entry = entry_with(row, Some(change.timestamp), now);
            &&& entry.id == id
            &&& entry.memory_id == change.memory_id
            &&& entry.previous_content == change.previous_content
            &&& entry.new_content == change.new_content
            &&& entry.event == change.event
            &&& entry.timestamp == change.timestamp
            &&& row.timestamp == text
            &&& row.user_id == change.user_id
            &&& row.agent_id == change.agent_id
            &&& row.request_id == change.request_id
            &&& row_of(change, id).timestamp == rfc3339_text(
                change.timestamp.0,
                change.timestamp.1,
            )
            &&& entry_of(row, now).timestamp == match rfc3339_instant(text) {
                Some(time) => time,
                None => now,
            }
        }),
{
    uuid_text_is_read_back(id);
    uuid_text_is_read_back(change.memory_id);
    events_have_their_names(change.event);
}

} // verus!
