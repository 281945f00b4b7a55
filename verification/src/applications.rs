//! The usage records of the applications seen so far, one per identifier.

use crate::common::{ApplicationIdentifier, ApplicationUsage, TaskBarApplication, TaskBarApplicationID};
use vstd::prelude::*;

verus! {

/// One of the four counters that the taskbar keeps for an application, each
/// in a registry key of its own.
#[derive(Clone, Copy, Debug, PartialEq, Eq, Structural)]
pub enum UsageCounter {
    /// How often the badge icon was updated.
    BadgeUpdates,
    /// How often the application was run from the taskbar.
    Launches,
    /// How often the application was switched to.
    Switches,
    /// How often the jump list was shown.
    JumpViewClicks,
}

impl UsageCounter {
    /// The name of the registry key, under a user's `FeatureUsage` key,
    /// whose values hold this counter.
    pub open spec fn key(self) -> Seq<char> {
        match self {
            UsageCounter::BadgeUpdates => "AppBadgeUpdated"@,
            UsageCounter::Launches => "AppLaunch"@,
            UsageCounter::Switches => "AppSwitched"@,
            UsageCounter::JumpViewClicks => "ShowJumpView"@,
        }
    }

    /// The name of the registry key, under a user's `FeatureUsage` key,
    /// whose values hold this counter.
    pub fn key_name(&self) -> (name: &'static str)
        ensures
            name@ == self.key(),
    {
        match self {
            UsageCounter::BadgeUpdates => "AppBadgeUpdated",
            UsageCounter::Launches => "AppLaunch",
            UsageCounter::Switches => "AppSwitched",
            UsageCounter::JumpViewClicks => "ShowJumpView",
        }
    }
}

impl ApplicationUsage {
    /// The record of an application of which nothing has been counted yet.
    pub open spec fn fresh(id: ApplicationIdentifier) -> ApplicationUsage {
        ApplicationUsage {
            id,
            badge_updates: 0,
            executed_times: 0,
            app_switched: 0,
            show_jump_clicks: 0,
            tray_clicks: 0,
        }
    }

    /// What the record holds for `counter`.
    pub open spec fn counter(self, counter: UsageCounter) -> u32 {
        match counter {
            UsageCounter::BadgeUpdates => self.badge_updates,
            UsageCounter::Launches => self.executed_times,
            UsageCounter::Switches => self.app_switched,
            UsageCounter::JumpViewClicks => self.show_jump_clicks,
        }
    }

    /// The record with `counter` set to `value` and nothing else changed.
    pub open spec fn with_counter(self, counter: UsageCounter, value: u32) -> ApplicationUsage {
        match counter {
            UsageCounter::BadgeUpdates => ApplicationUsage { badge_updates: value, ..self },
            UsageCounter::Launches => ApplicationUsage { executed_times: value, ..self },
            UsageCounter::Switches => ApplicationUsage { app_switched: value, ..self },
            UsageCounter::JumpViewClicks => ApplicationUsage { show_jump_clicks: value, ..self },
        }
    }
}

/// The records after `counter` was seen with `value` for the application
/// `id`: its record, made with all counters at zero where there was none,
/// holds `value` for `counter`; the value that it held before is gone.
pub open spec fn recorded(
    records: Map<ApplicationIdentifier, ApplicationUsage>,
    id: ApplicationIdentifier,
    counter: UsageCounter,
    value: u32,
) -> Map<ApplicationIdentifier, ApplicationUsage> {
    let prior = if records.contains_key(id) {
        records[id]
    } else {
        ApplicationUsage::fresh(id)
    };
    records.insert(id, prior.with_counter(counter, value))
}

/// Whether each record is filed under the identifier that it holds itself.
pub open spec fn keyed_by_identifier(records: Map<ApplicationIdentifier, ApplicationUsage>) -> bool {
    forall|id: ApplicationIdentifier| #[trigger] records.contains_key(id) ==> records[id].id == id
}

/// Whether no two of `records` are of one application.
pub open spec fn distinct_identifiers(records: Seq<TaskBarApplication>) -> bool {
    forall|i: int, j: int|
        0 <= i < j < records.len() ==> (#[trigger] records[i]).id@ != (#[trigger] records[j]).id@
}

/// Whether one of `records` is of the application `id`.
pub open spec fn has_record(records: Seq<TaskBarApplication>, id: ApplicationIdentifier) -> bool {
    exists|i: int| 0 <= i < records.len() && (#[trigger] records[i]).id@ == id
}

/// The place of a record of the application `id` among `records`.
pub open spec fn place_of(records: Seq<TaskBarApplication>, id: ApplicationIdentifier) -> int {
    choose|i: int| 0 <= i < records.len() && (#[trigger] records[i]).id@ == id
}

/// The records of a list, by the application that each is of.
pub open spec fn usage_by_identifier(records: Seq<TaskBarApplication>) -> Map<
    ApplicationIdentifier,
    ApplicationUsage,
> {
    Map::new(
        |id: ApplicationIdentifier| has_record(records, id),
        |id: ApplicationIdentifier| records[place_of(records, id)]@,
    )
}

/// In a list without two records of one application, each record is the
/// one that the map holds for its application.
proof fn usage_of_each(records: Seq<TaskBarApplication>, i: int)
    requires
        distinct_identifiers(records),
        0 <= i < records.len(),
    ensures
        usage_by_identifier(records).contains_key(records[i].id@),
        usage_by_identifier(records)[records[i].id@] == records[i]@,
{
    let id = records[i].id@;
    assert(has_record(records, id));
    let j = place_of(records, id);
    assert(j == i) by {
        if j < i {
            assert(records[j].id@ != records[i].id@);
        } else if i < j {
            assert(records[i].id@ != records[j].id@);
        }
    }
}

/// A record of an application that the list does not know yet, put at its
/// end, is one more entry of the map.
proof fn usage_after_push(records: Seq<TaskBarApplication>, record: TaskBarApplication)
    requires
        distinct_identifiers(records),
        !has_record(records, record.id@),
    ensures
        distinct_identifiers(records.push(record)),
        usage_by_identifier(records.push(record)) == usage_by_identifier(records).insert(
            record.id@,
            record@,
        ),
{
    let longer = records.push(record);
    assert(distinct_identifiers(longer)) by {
        assert forall|i: int, j: int| 0 <= i < j < longer.len() implies (#[trigger] longer[i]).id@
            != (#[trigger] longer[j]).id@ by {
            if j == records.len() {
                assert(records[i].id@ != record.id@);
            } else {
                assert(records[i].id@ != records[j].id@);
            }
        }
    }
    let before = usage_by_identifier(records);
    let after = usage_by_identifier(longer);
    assert forall|id: ApplicationIdentifier| after.contains_key(id) <==> before.insert(
        record.id@,
        record@,
    ).contains_key(id) by {
        if has_record(records, id) {
            let i = place_of(records, id);
            assert(longer[i].id@ == id);
        }
        if has_record(longer, id) {
            let i = place_of(longer, id);
            if i < records.len() {
                assert(records[i].id@ == id);
            }
        }
        if id == record.id@ {
            assert(longer[records.len() as int].id@ == id);
        }
    }
    assert forall|id: ApplicationIdentifier| after.contains_key(id) implies after[id]
        == before.insert(record.id@, record@)[id] by {
        let i = place_of(longer, id);
        usage_of_each(longer, i);
        if i < records.len() {
            usage_of_each(records, i);
        }
    }
    assert(after =~= before.insert(record.id@, record@));
}

/// A record put in the place of another of the same application takes its
/// entry of the map.
proof fn usage_after_update(
    records: Seq<TaskBarApplication>,
    i: int,
    record: TaskBarApplication,
)
    requires
        distinct_identifiers(records),
        0 <= i < records.len(),
        records[i].id@ == record.id@,
    ensures
        distinct_identifiers(records.update(i, record)),
        usage_by_identifier(records.update(i, record)) == usage_by_identifier(records).insert(
            record.id@,
            record@,
        ),
{
    let changed = records.update(i, record);
    assert(distinct_identifiers(changed)) by {
        assert forall|a: int, b: int| 0 <= a < b < changed.len() implies (#[trigger] changed[a]).id@
            != (#[trigger] changed[b]).id@ by {
            assert(records[a].id@ != records[b].id@);
        }
    }
    let before = usage_by_identifier(records);
    let after = usage_by_identifier(changed);
    assert forall|id: ApplicationIdentifier| after.contains_key(id) <==> before.insert(
        record.id@,
        record@,
    ).contains_key(id) by {
        if has_record(records, id) {
            let j = place_of(records, id);
            assert(changed[j].id@ == id);
        }
        if has_record(changed, id) {
            let j = place_of(changed, id);
            assert(records[j].id@ == id);
        }
        if id == record.id@ {
            assert(changed[i].id@ == id);
        }
    }
    assert forall|id: ApplicationIdentifier| after.contains_key(id) implies after[id]
        == before.insert(record.id@, record@)[id] by {
        let j = place_of(changed, id);
        usage_of_each(changed, j);
        usage_of_each(records, j);
    }
    assert(after =~= before.insert(record.id@, record@));
}

/// A list without two records of one application has as many records as
/// its map has entries.
proof fn usage_count(records: Seq<TaskBarApplication>)
    requires
        distinct_identifiers(records),
    ensures
        usage_by_identifier(records).dom().finite(),
        usage_by_identifier(records).dom().len() == records.len(),
    decreases records.len(),
{
    if records.len() == 0 {
        assert(usage_by_identifier(records).dom() =~= Set::<ApplicationIdentifier>::empty());
    } else {
        let shorter = records.drop_last();
        let last = records.last();
        assert(distinct_identifiers(shorter)) by {
            assert forall|i: int, j: int| 0 <= i < j < shorter.len() implies (
            #[trigger] shorter[i]).id@ != (#[trigger] shorter[j]).id@ by {
                assert(records[i].id@ != records[j].id@);
            }
        }
        assert(!has_record(shorter, last.id@)) by {
            if has_record(shorter, last.id@) {
                let i = place_of(shorter, last.id@);
                assert(records[i].id@ != records[records.len() - 1].id@);
            }
        }
        usage_count(shorter);
        usage_after_push(shorter, last);
        assert(shorter.push(last) =~= records);
        assert(usage_by_identifier(records).dom() =~= usage_by_identifier(shorter).dom().insert(
            last.id@,
        ));
    }
}

/// The usage records of the applications seen so far: at most one for each
/// identifier.
pub struct TaskBarApplications {
    records: Vec<TaskBarApplication>,
}

impl View for TaskBarApplications {
    type V = Map<ApplicationIdentifier, ApplicationUsage>;

    /// The records by the application that each is of.
    closed spec fn view(&self) -> Map<ApplicationIdentifier, ApplicationUsage> {
        usage_by_identifier(self.records@)
    }
}

impl TaskBarApplications {
    #[verifier::type_invariant]
    spec fn no_application_twice(&self) -> bool {
        distinct_identifiers(self.records@)
    }

    /// No records yet.
    pub fn new() -> (applications: Self)
        ensures
            applications@ == Map::<ApplicationIdentifier, ApplicationUsage>::empty(),
    {
        let applications = TaskBarApplications { records: Vec::new() };
        assert(applications@ =~= Map::<ApplicationIdentifier, ApplicationUsage>::empty());
        applications
    }

    /// Where the record of `id` stands.
    fn position(&self, id: &TaskBarApplicationID) -> (place: Option<usize>)
        ensures
            match place {
                Some(i) => i < self.records.len() && self.records[i as int].id@ == id@,
                None => !has_record(self.records@, id@),
            },
    {
        let mut i: usize = 0;
        while i < self.records.len()
            invariant
                i <= self.records.len(),
                forall|j: int| 0 <= j < i ==> (#[trigger] self.records[j]).id@ != id@,
            decreases self.records.len() - i,
        {
            if self.records[i].id == *id {
                return Some(i);
            }
            i += 1;
        }
        None
    }

    /// Each record is filed under the identifier that it holds itself.
    pub proof fn records_are_keyed(&self)
        ensures
            keyed_by_identifier(self@),
    {
        assert forall|id: ApplicationIdentifier| #[trigger] self@.contains_key(id) implies self@[id].id
            == id by {
            assert(has_record(self.records@, id));
        }
    }

    /// How many applications have a record.
    pub fn len(&self) -> (count: usize)
        ensures
            self@.dom().finite(),
            count == self@.dom().len(),
    {
        proof {
            use_type_invariant(self);
            usage_count(self.records@);
        }
        self.records.len()
    }

    /// The record of the application `id`, if there is one.
    pub fn get(&self, id: &TaskBarApplicationID) -> (found: Option<&TaskBarApplication>)
        ensures
            match found {
                Some(record) => self@.contains_key(id@) && record@ == self@[id@],
                None => !self@.contains_key(id@),
            },
    {
        proof {
            use_type_invariant(self);
        }
        match self.position(id) {
            Some(i) => {
                proof {
                    usage_of_each(self.records@, i as int);
                }
                Some(&self.records[i])
            },
            None => None,
        }
    }

    /// Notes that `counter` stands at `value` for the application `id`.
    ///
    /// An application without a record gets one, with the other counters at
    /// zero. The value replaces the one that the counter held before: the
    /// registry keeps running totals. No other record changes.
    pub fn record(&mut self, id: TaskBarApplicationID, counter: UsageCounter, value: u32)
        ensures
            final(self)@ == recorded(old(self)@, id@, counter, value),
    {
        proof {
            use_type_invariant(&*self);
        }
        match self.position(&id) {
            Some(i) => {
                let prior = &self.records[i];
                let mut updated = TaskBarApplication {
                    id,
                    badge_updates: prior.badge_updates,
                    executed_times: prior.executed_times,
                    app_switched: prior.app_switched,
                    show_jump_clicks: prior.show_jump_clicks,
                    tray_clicks: prior.tray_clicks,
                };
                match counter {
                    UsageCounter::BadgeUpdates => updated.badge_updates = value,
                    UsageCounter::Launches => updated.executed_times = value,
                    UsageCounter::Switches => updated.app_switched = value,
                    UsageCounter::JumpViewClicks => updated.show_jump_clicks = value,
                }
                proof {
                    usage_of_each(self.records@, i as int);
                    usage_after_update(self.records@, i as int, updated);
                }
                let mut records: Vec<TaskBarApplication> = Vec::new();
                core::mem::swap(&mut self.records, &mut records);
                records.set(i, updated);
                core::mem::swap(&mut self.records, &mut records);
            },
            None => {
                let mut created = TaskBarApplication {
                    id,
                    badge_updates: 0,
                    executed_times: 0,
                    app_switched: 0,
                    show_jump_clicks: 0,
                    tray_clicks: 0,
                };
                match counter {
                    UsageCounter::BadgeUpdates => created.badge_updates = value,
                    UsageCounter::Launches => created.executed_times = value,
                    UsageCounter::Switches => created.app_switched = value,
                    UsageCounter::JumpViewClicks => created.show_jump_clicks = value,
                }
                proof {
                    usage_after_push(self.records@, created);
                }
                let mut records: Vec<TaskBarApplication> = Vec::new();
                core::mem::swap(&mut self.records, &mut records);
                records.push(created);
                core::mem::swap(&mut self.records, &mut records);
            },
        }
    }

    /// The records, in no order that means anything: no two of one
    /// application, and together what the collection held.
    pub fn into_records(self) -> (records: Vec<TaskBarApplication>)
        ensures
            distinct_identifiers(records@),
            usage_by_identifier(records@) == self@,
    {
        proof {
            use_type_invariant(&self);
        }
        self.records
    }
}

/// A value seen for an application leaves every record filed under the
/// identifier that it holds.
pub proof fn recorded_keeps_keys(
    records: Map<ApplicationIdentifier, ApplicationUsage>,
    id: ApplicationIdentifier,
    counter: UsageCounter,
    value: u32,
)
    requires
        keyed_by_identifier(records),
    ensures
        keyed_by_identifier(recorded(records, id, counter, value)),
{
}

/// Two different counters seen for one application end up in one record,
/// which holds both values: the map gains no entry but the one of that
/// application, and no other record changes.
pub proof fn counters_share_a_record(
    records: Map<ApplicationIdentifier, ApplicationUsage>,
    id: ApplicationIdentifier,
    first: UsageCounter,
    first_value: u32,
    second: UsageCounter,
    second_value: u32,
)
    requires
        first != second,
    ensures
        ({
            let after = recorded(
                recorded(records, id, first, first_value),
                id,
                second,
                second_value,
            );
            &&& after.dom() == records.dom().insert(id)
            &&& after[id].counter(first) == first_value
            &&& after[id].counter(second) == second_value
            &&& forall|other: ApplicationIdentifier|
                other != id && records.contains_key(other) ==> after[other] == records[other]
        }),
{
    let after = recorded(recorded(records, id, first, first_value), id, second, second_value);
    assert(after.dom() =~= records.dom().insert(id));
}

/// A counter seen twice for one application holds the later value: values
/// replace one another and are never added up.
pub proof fn later_value_replaces(
    records: Map<ApplicationIdentifier, ApplicationUsage>,
    id: ApplicationIdentifier,
    counter: UsageCounter,
    earlier: u32,
    later: u32,
)
    ensures
        recorded(recorded(records, id, counter, earlier), id, counter, later) == recorded(
            records,
            id,
            counter,
            later,
        ),
{
    let twice = recorded(recorded(records, id, counter, earlier), id, counter, later);
    assert(twice =~= recorded(records, id, counter, later));
}

/// A first value for an application makes a record in which every other
/// counter is zero.
pub proof fn first_value_starts_at_zero(
    records: Map<ApplicationIdentifier, ApplicationUsage>,
    id: ApplicationIdentifier,
    counter: UsageCounter,
    value: u32,
)
    requires
        !records.contains_key(id),
    ensures
        recorded(records, id, counter, value)[id] == ApplicationUsage::fresh(id).with_counter(
            counter,
            value,
        ),
        recorded(records, id, counter, value)[id].id == id,
        forall|other: UsageCounter|
            other != counter ==> recorded(records, id, counter, value)[id].counter(other) == 0,
        recorded(records, id, counter, value)[id].tray_clicks == 0,
{
}

/// Values for two different applications, or for two different counters,
/// may be seen in either order.
pub proof fn values_commute(
    records: Map<ApplicationIdentifier, ApplicationUsage>,
    a: ApplicationIdentifier,
    a_counter: UsageCounter,
    a_value: u32,
    b: ApplicationIdentifier,
    b_counter: UsageCounter,
    b_value: u32,
)
    requires
        a != b || a_counter != b_counter,
    ensures
        recorded(recorded(records, a, a_counter, a_value), b, b_counter, b_value) == recorded(
            recorded(records, b, b_counter, b_value),
            a,
            a_counter,
            a_value,
        ),
{
    let one = recorded(recorded(records, a, a_counter, a_value), b, b_counter, b_value);
    let other = recorded(recorded(records, b, b_counter, b_value), a, a_counter, a_value);
    assert(one =~= other);
}

} // verus!
