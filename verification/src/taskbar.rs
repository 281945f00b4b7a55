//! From what the `FeatureUsage` keys of the users hold to one usage record
//! per application.

use crate::applications::{recorded, TaskBarApplications, UsageCounter};
use crate::common::{resolved_identifier, ApplicationIdentifier, ApplicationUsage, TaskBarApplicationID};
use crate::environment::{ending_variables, references_end, without_endless_references};
use forensic_rs::traits::registry::RegValue;
use vstd::prelude::*;

verus! {

/// The registry key, under the key of a user, below which the four
/// counters are kept.
pub const FEATURE_USAGE_KEY: &'static str =
    r"Software\Microsoft\Windows\CurrentVersion\Explorer\FeatureUsage";

/// A value as the registry holds it.
#[derive(Clone, Debug)]
pub enum RegistryValue {
    Binary(Vec<u8>),
    MultiSZ(Vec<String>),
    ExpandSZ(String),
    SZ(String),
    DWord(u32),
    QWord(u64),
}

/// The error type of `forensic_rs`.
#[verifier::external_type_specification]
#[verifier::external_body]
pub struct ExForensicError(forensic_rs::err::ForensicError);

/// The counter that a registry value holds: a `DWord` as it is, the low 32
/// bits of a `QWord`, and none for a value of any other type.
pub open spec fn counter_value(value: RegistryValue) -> Option<u32> {
    match value {
        RegistryValue::DWord(v) => Some(v),
        RegistryValue::QWord(v) => Some((v % 0x1_0000_0000) as u32),
        _ => None,
    }
}

/// Calls `u32::try_from` on the `forensic_rs::traits::registry::RegValue`
/// that holds what `value` holds.
///
/// Trusted: a `DWord` converts to its number, a `QWord` to its number cut
/// down to 32 bits, and any other value to an error.
#[verifier::external_body]
fn counter_of(value: &RegistryValue) -> (counter: Result<u32, forensic_rs::err::ForensicError>)
    ensures
        match counter {
            Ok(v) => counter_value(*value) == Some(v),
            Err(_) => counter_value(*value) is None,
        },
{
    let outside = match value {
        RegistryValue::Binary(v) => RegValue::Binary(v.clone()),
        RegistryValue::MultiSZ(v) => RegValue::MultiSZ(v.clone()),
        RegistryValue::ExpandSZ(v) => RegValue::ExpandSZ(v.clone()),
        RegistryValue::SZ(v) => RegValue::SZ(v.clone()),
        RegistryValue::DWord(v) => RegValue::DWord(*v),
        RegistryValue::QWord(v) => RegValue::QWord(*v),
    };
    u32::try_from(outside)
}

/// A registry value that was passed over because it holds no counter.
#[derive(Clone, Debug)]
pub struct SkippedValue {
    /// The user under whose key the value stands.
    pub user_sid: String,
    /// The counter whose key holds the value.
    pub counter: UsageCounter,
    /// The name of the value.
    pub name: String,
}

/// What a `SkippedValue` stands for.
pub struct SkippedEntry {
    pub user_sid: Seq<char>,
    pub counter: UsageCounter,
    pub name: Seq<char>,
}

impl View for SkippedValue {
    type V = SkippedEntry;

    open spec fn view(&self) -> SkippedEntry {
        SkippedEntry { user_sid: self.user_sid@, counter: self.counter, name: self.name@ }
    }
}

/// What the values of a report stand for, in order.
pub open spec fn report_entries(report: Seq<SkippedValue>) -> Seq<SkippedEntry> {
    report.map_values(|skipped: SkippedValue| skipped@)
}

/// The records after one registry value was read for `counter`. A value
/// without a name is no application and changes nothing, and neither does
/// one that holds no counter. Any other sets `counter` for the application
/// that its name resolves to.
pub open spec fn merged_entry(
    records: Map<ApplicationIdentifier, ApplicationUsage>,
    env: Map<Seq<char>, Seq<char>>,
    counter: UsageCounter,
    name: Seq<char>,
    value: RegistryValue,
) -> Map<ApplicationIdentifier, ApplicationUsage> {
    if name.len() == 0 {
        records
    } else {
        match counter_value(value) {
            Some(v) => recorded(records, resolved_identifier(name, env), counter, v),
            None => records,
        }
    }
}

/// The records after the values of the key of `counter` were read, one
/// after the other.
pub open spec fn merged_subtree(
    records: Map<ApplicationIdentifier, ApplicationUsage>,
    env: Map<Seq<char>, Seq<char>>,
    counter: UsageCounter,
    values: Seq<(String, RegistryValue)>,
) -> Map<ApplicationIdentifier, ApplicationUsage>
    decreases values.len(),
{
    if values.len() == 0 {
        records
    } else {
        merged_entry(
            merged_subtree(records, env, counter, values.drop_last()),
            env,
            counter,
            values.last().0@,
            values.last().1,
        )
    }
}

/// Whether a registry value is passed over with a report: it has a name,
/// and holds no counter.
pub open spec fn is_skipped(name: Seq<char>, value: RegistryValue) -> bool {
    name.len() > 0 && counter_value(value) is None
}

/// The values of the key of `counter` that are passed over with a report,
/// in the order in which they stand.
pub open spec fn skipped_in_subtree(
    user_sid: Seq<char>,
    counter: UsageCounter,
    values: Seq<(String, RegistryValue)>,
) -> Seq<SkippedEntry>
    decreases values.len(),
{
    if values.len() == 0 {
        Seq::empty()
    } else {
        let before = skipped_in_subtree(user_sid, counter, values.drop_last());
        if is_skipped(values.last().0@, values.last().1) {
            before.push(SkippedEntry { user_sid, counter, name: values.last().0@ })
        } else {
            before
        }
    }
}

/// Reads the values of the key of `counter` into the records.
///
/// Each value with a name and a counter sets `counter` for the
/// application that its name resolves to in `env_vars`, in the order of
/// `values`: of two values for one application the later one stays. A
/// value without a name is passed over in silence. One that holds no
/// counter is passed over and added to `report`.
pub fn merge_subtree(
    values: &Vec<(String, RegistryValue)>,
    counter: UsageCounter,
    user_sid: &str,
    applications: &mut TaskBarApplications,
    env_vars: &forensic_rs::core::UserEnvVars,
    report: &mut Vec<SkippedValue>,
)
    ensures
        final(applications)@ == merged_subtree(
            old(applications)@,
            env_vars.deep_view(),
            counter,
            values@,
        ),
        report_entries(final(report)@) == report_entries(old(report)@) + skipped_in_subtree(
            user_sid@,
            counter,
            values@,
        ),
{
    let kept = without_endless_references(env_vars);
    let ghost env = env_vars.deep_view();
    let ghost records_before = applications@;
    let ghost report_before = report_entries(report@);
    assert(values@.take(0) =~= Seq::<(String, RegistryValue)>::empty());
    assert(report_entries(report@) =~= report_before + Seq::<SkippedEntry>::empty());
    let mut i: usize = 0;
    while i < values.len()
        invariant
            i <= values.len(),
            env == env_vars.deep_view(),
            kept.deep_view() == ending_variables(env),
            references_end(kept.deep_view()),
            applications@ == merged_subtree(records_before, env, counter, values@.take(i as int)),
            report_entries(report@) == report_before + skipped_in_subtree(
                user_sid@,
                counter,
                values@.take(i as int),
            ),
        decreases values.len() - i,
    {
        let name = &values[i].0;
        let value = &values[i].1;
        proof {
            let upto = values@.take(i as int + 1);
            assert(upto.drop_last() =~= values@.take(i as int));
            assert(upto.last() == values@[i as int]);
        }
        if !name.as_str().is_empty() {
            match counter_of(value) {
                Ok(v) => {
                    let id = TaskBarApplicationID::resolve_among(name.clone(), &kept, Ghost(env));
                    applications.record(id, counter, v);
                },
                Err(_) => {
                    let skipped = SkippedValue {
                        user_sid: user_sid.to_owned(),
                        counter,
                        name: name.clone(),
                    };
                    let ghost shorter = report@;
                    report.push(skipped);
                    assert(report_entries(report@) =~= report_entries(shorter).push(skipped@));
                    assert(report_before + skipped_in_subtree(
                        user_sid@,
                        counter,
                        values@.take(i as int),
                    ).push(skipped@) =~= report_entries(shorter).push(skipped@));
                },
            }
        }
        i += 1;
    }
    assert(values@.take(values.len() as int) =~= values@);
}

/// Reads the values of the `AppBadgeUpdated` key: see `merge_subtree`.
pub fn process_app_badge_update(
    values: &Vec<(String, RegistryValue)>,
    user_sid: &str,
    applications: &mut TaskBarApplications,
    env_vars: &forensic_rs::core::UserEnvVars,
    report: &mut Vec<SkippedValue>,
)
    ensures
        final(applications)@ == merged_subtree(
            old(applications)@,
            env_vars.deep_view(),
            UsageCounter::BadgeUpdates,
            values@,
        ),
        report_entries(final(report)@) == report_entries(old(report)@) + skipped_in_subtree(
            user_sid@,
            UsageCounter::BadgeUpdates,
            values@,
        ),
{
    merge_subtree(values, UsageCounter::BadgeUpdates, user_sid, applications, env_vars, report)
}

/// Reads the values of the `AppLaunch` key: see `merge_subtree`.
pub fn process_app_launch_update(
    values: &Vec<(String, RegistryValue)>,
    user_sid: &str,
    applications: &mut TaskBarApplications,
    env_vars: &forensic_rs::core::UserEnvVars,
    report: &mut Vec<SkippedValue>,
)
    ensures
        final(applications)@ == merged_subtree(
            old(applications)@,
            env_vars.deep_view(),
            UsageCounter::Launches,
            values@,
        ),
        report_entries(final(report)@) == report_entries(old(report)@) + skipped_in_subtree(
            user_sid@,
            UsageCounter::Launches,
            values@,
        ),
{
    merge_subtree(values, UsageCounter::Launches, user_sid, applications, env_vars, report)
}

/// Reads the values of the `AppSwitched` key: see `merge_subtree`.
pub fn process_app_switched_update(
    values: &Vec<(String, RegistryValue)>,
    user_sid: &str,
    applications: &mut TaskBarApplications,
    env_vars: &forensic_rs::core::UserEnvVars,
    report: &mut Vec<SkippedValue>,
)
    ensures
        final(applications)@ == merged_subtree(
            old(applications)@,
            env_vars.deep_view(),
            UsageCounter::Switches,
            values@,
        ),
        report_entries(final(report)@) == report_entries(old(report)@) + skipped_in_subtree(
            user_sid@,
            UsageCounter::Switches,
            values@,
        ),
{
    merge_subtree(values, UsageCounter::Switches, user_sid, applications, env_vars, report)
}

/// Reads the values of the `ShowJumpView` key: see `merge_subtree`.
pub fn process_jump_view_update(
    values: &Vec<(String, RegistryValue)>,
    user_sid: &str,
    applications: &mut TaskBarApplications,
    env_vars: &forensic_rs::core::UserEnvVars,
    report: &mut Vec<SkippedValue>,
)
    ensures
        final(applications)@ == merged_subtree(
            old(applications)@,
            env_vars.deep_view(),
            UsageCounter::JumpViewClicks,
            values@,
        ),
        report_entries(final(report)@) == report_entries(old(report)@) + skipped_in_subtree(
            user_sid@,
            UsageCounter::JumpViewClicks,
            values@,
        ),
{
    merge_subtree(values, UsageCounter::JumpViewClicks, user_sid, applications, env_vars, report)
}

/// What the `FeatureUsage` key of one user holds: for each of the four
/// counters the values of its key, each with its name, in the order in
/// which the registry lists them. `None` stands for a key that is not there
/// or cannot be read.
#[derive(Clone, Debug)]
pub struct FeatureUsage {
    pub app_badge_updated: Option<Vec<(String, RegistryValue)>>,
    pub app_launch: Option<Vec<(String, RegistryValue)>>,
    pub app_switched: Option<Vec<(String, RegistryValue)>>,
    pub show_jump_view: Option<Vec<(String, RegistryValue)>>,
}

/// The records after the key of `counter` was read, if it is there.
pub open spec fn merged_optional(
    records: Map<ApplicationIdentifier, ApplicationUsage>,
    env: Map<Seq<char>, Seq<char>>,
    counter: UsageCounter,
    values: Option<Vec<(String, RegistryValue)>>,
) -> Map<ApplicationIdentifier, ApplicationUsage> {
    match values {
        Some(values) => merged_subtree(records, env, counter, values@),
        None => records,
    }
}

/// The values of the key of `counter` that are passed over with a report,
/// if the key is there.
pub open spec fn skipped_in_optional(
    user_sid: Seq<char>,
    counter: UsageCounter,
    values: Option<Vec<(String, RegistryValue)>>,
) -> Seq<SkippedEntry> {
    match values {
        Some(values) => skipped_in_subtree(user_sid, counter, values@),
        None => Seq::empty(),
    }
}

/// The records after the four keys of one user were read: badge updates,
/// launches, switches, jump views, in this order, each if it is there.
pub open spec fn merged_feature_usage(
    records: Map<ApplicationIdentifier, ApplicationUsage>,
    env: Map<Seq<char>, Seq<char>>,
    usage: FeatureUsage,
) -> Map<ApplicationIdentifier, ApplicationUsage> {
    let badges = merged_optional(records, env, UsageCounter::BadgeUpdates, usage.app_badge_updated);
    let launches = merged_optional(badges, env, UsageCounter::Launches, usage.app_launch);
    let switches = merged_optional(launches, env, UsageCounter::Switches, usage.app_switched);
    merged_optional(switches, env, UsageCounter::JumpViewClicks, usage.show_jump_view)
}

/// The values of the four keys of one user that are passed over with a
/// report, key after key.
pub open spec fn skipped_in_feature_usage(user_sid: Seq<char>, usage: FeatureUsage) -> Seq<
    SkippedEntry,
> {
    skipped_in_optional(user_sid, UsageCounter::BadgeUpdates, usage.app_badge_updated)
        + skipped_in_optional(user_sid, UsageCounter::Launches, usage.app_launch)
        + skipped_in_optional(user_sid, UsageCounter::Switches, usage.app_switched)
        + skipped_in_optional(user_sid, UsageCounter::JumpViewClicks, usage.show_jump_view)
}

/// Reads the four keys of one user into the records, each if it is there.
/// A key that is not there keeps none of the others from being read.
pub fn process_feature_usage_update(
    usage: &FeatureUsage,
    user_sid: &str,
    applications: &mut TaskBarApplications,
    env_vars: &forensic_rs::core::UserEnvVars,
    report: &mut Vec<SkippedValue>,
)
    ensures
        final(applications)@ == merged_feature_usage(
            old(applications)@,
            env_vars.deep_view(),
            *usage,
        ),
        report_entries(final(report)@) == report_entries(old(report)@) + skipped_in_feature_usage(
            user_sid@,
            *usage,
        ),
{
    let ghost before = report_entries(report@);
    let ghost badges = skipped_in_optional(
        user_sid@,
        UsageCounter::BadgeUpdates,
        usage.app_badge_updated,
    );
    let ghost launches = skipped_in_optional(user_sid@, UsageCounter::Launches, usage.app_launch);
    let ghost switches = skipped_in_optional(user_sid@, UsageCounter::Switches, usage.app_switched);
    let ghost jumps = skipped_in_optional(
        user_sid@,
        UsageCounter::JumpViewClicks,
        usage.show_jump_view,
    );
    match &usage.app_badge_updated {
        Some(values) => process_app_badge_update(values, user_sid, applications, env_vars, report),
        None => {},
    }
    assert(report_entries(report@) =~= before + badges);
    match &usage.app_launch {
        Some(values) => process_app_launch_update(values, user_sid, applications, env_vars, report),
        None => {},
    }
    assert(report_entries(report@) =~= before + badges + launches);
    match &usage.app_switched {
        Some(values) => process_app_switched_update(
            values,
            user_sid,
            applications,
            env_vars,
            report,
        ),
        None => {},
    }
    assert(report_entries(report@) =~= before + badges + launches + switches);
    match &usage.show_jump_view {
        Some(values) => process_jump_view_update(values, user_sid, applications, env_vars, report),
        None => {},
    }
    assert(report_entries(report@) =~= before + (badges + launches + switches + jumps));
}

/// What was read for one user: the security identifier, the environment,
/// and what the `FeatureUsage` key holds, `None` where the user's keys
/// cannot be opened.
#[derive(Clone, Debug)]
pub struct UserFeatureUsage {
    pub user_sid: String,
    pub env_vars: forensic_rs::core::UserEnvVars,
    pub feature_usage: Option<FeatureUsage>,
}

/// Whether `user_sid` names a user. The empty identifier stands for the
/// default profile, from which new users are made: it is no user.
pub open spec fn names_user(user_sid: Seq<char>) -> bool {
    user_sid.len() > 0
}

/// The records after one user was read: unchanged for the default profile
/// and for a user without a `FeatureUsage` key.
pub open spec fn merged_user(
    records: Map<ApplicationIdentifier, ApplicationUsage>,
    user: UserFeatureUsage,
) -> Map<ApplicationIdentifier, ApplicationUsage> {
    match user.feature_usage {
        Some(usage) if names_user(user.user_sid@) => merged_feature_usage(
            records,
            user.env_vars.deep_view(),
            usage,
        ),
        _ => records,
    }
}

/// The values of one user that are passed over with a report.
pub open spec fn skipped_of_user(user: UserFeatureUsage) -> Seq<SkippedEntry> {
    match user.feature_usage {
        Some(usage) if names_user(user.user_sid@) => skipped_in_feature_usage(
            user.user_sid@,
            usage,
        ),
        _ => Seq::empty(),
    }
}

/// The records after the users were read, one after the other.
pub open spec fn merged_users(
    records: Map<ApplicationIdentifier, ApplicationUsage>,
    users: Seq<UserFeatureUsage>,
) -> Map<ApplicationIdentifier, ApplicationUsage>
    decreases users.len(),
{
    if users.len() == 0 {
        records
    } else {
        merged_user(merged_users(records, users.drop_last()), users.last())
    }
}

/// The values of all users that are passed over with a report, user after user.
pub open spec fn skipped_of_users(users: Seq<UserFeatureUsage>) -> Seq<SkippedEntry>
    decreases users.len(),
{
    if users.len() == 0 {
        Seq::empty()
    } else {
        skipped_of_users(users.drop_last()) + skipped_of_user(users.last())
    }
}

/// Whether `user_sid` names a user, and not the default profile.
pub fn is_user(user_sid: &str) -> (named: bool)
    ensures
        named == names_user(user_sid@),
{
    !user_sid.is_empty()
}

/// Whether a registry value with this name is read at all: one without a
/// name is no application.
pub fn is_application_entry(value_name: &str) -> (named: bool)
    ensures
        named == (value_name@.len() > 0),
{
    !value_name.is_empty()
}

/// Makes one usage record per application from what was read for the
/// users, in their order, together with the values that were passed over.
///
/// The records are not kept apart by user: where two users have used one
/// application, its record holds for each counter what the later of them
/// gave. The default profile, with its empty identifier, is passed over.
pub fn read_task_bar_applications(users: &Vec<UserFeatureUsage>) -> (found: (
    TaskBarApplications,
    Vec<SkippedValue>,
))
    ensures
        found.0@ == merged_users(Map::empty(), users@),
        report_entries(found.1@) == skipped_of_users(users@),
{
    let mut applications = TaskBarApplications::new();
    let mut report: Vec<SkippedValue> = Vec::new();
    assert(users@.take(0) =~= Seq::<UserFeatureUsage>::empty());
    assert(report_entries(report@) =~= Seq::<SkippedEntry>::empty());
    let mut i: usize = 0;
    while i < users.len()
        invariant
            i <= users.len(),
            applications@ == merged_users(Map::empty(), users@.take(i as int)),
            report_entries(report@) == skipped_of_users(users@.take(i as int)),
        decreases users.len() - i,
    {
        let user = &users[i];
        proof {
            let upto = users@.take(i as int + 1);
            assert(upto.drop_last() =~= users@.take(i as int));
            assert(upto.last() == users@[i as int]);
            assert(skipped_of_users(users@.take(i as int)) + Seq::<SkippedEntry>::empty()
                =~= skipped_of_users(users@.take(i as int)));
        }
        if is_user(user.user_sid.as_str()) {
            match &user.feature_usage {
                Some(usage) => process_feature_usage_update(
                    usage,
                    user.user_sid.as_str(),
                    &mut applications,
                    &user.env_vars,
                    &mut report,
                ),
                None => {},
            }
        }
        i += 1;
    }
    assert(users@.take(users.len() as int) =~= users@);
    (applications, report)
}

/// A value without a name is always passed over: the records and the
/// report are what they are without it, and so it never makes a record.
pub proof fn unnamed_value_is_passed_over(
    records: Map<ApplicationIdentifier, ApplicationUsage>,
    env: Map<Seq<char>, Seq<char>>,
    user_sid: Seq<char>,
    counter: UsageCounter,
    values: Seq<(String, RegistryValue)>,
    i: int,
)
    requires
        0 <= i < values.len(),
        values[i].0@.len() == 0,
    ensures
        merged_subtree(records, env, counter, values) == merged_subtree(
            records,
            env,
            counter,
            values.remove(i),
        ),
        skipped_in_subtree(user_sid, counter, values) == skipped_in_subtree(
            user_sid,
            counter,
            values.remove(i),
        ),
    decreases values.len(),
{
    if i == values.len() - 1 {
        assert(values.remove(i) =~= values.drop_last());
    } else {
        unnamed_value_is_passed_over(records, env, user_sid, counter, values.drop_last(), i);
        assert(values.remove(i).drop_last() =~= values.drop_last().remove(i));
        assert(values.remove(i).last() == values.last());
    }
}

/// Two values with a name and a counter, read for two different counters,
/// whose names resolve to one application, end up in one record of that
/// application, which holds both.
pub proof fn resolved_names_share_a_record(
    records: Map<ApplicationIdentifier, ApplicationUsage>,
    env: Map<Seq<char>, Seq<char>>,
    first: UsageCounter,
    first_name: Seq<char>,
    first_value: RegistryValue,
    second: UsageCounter,
    second_name: Seq<char>,
    second_value: RegistryValue,
)
    requires
        first != second,
        first_name.len() > 0,
        second_name.len() > 0,
        counter_value(first_value) is Some,
        counter_value(second_value) is Some,
        resolved_identifier(first_name, env) == resolved_identifier(second_name, env),
    ensures
        ({
            let id = resolved_identifier(first_name, env);
            let after = merged_entry(
                merged_entry(records, env, first, first_name, first_value),
                env,
                second,
                second_name,
                second_value,
            );
            &&& after.dom() == records.dom().insert(id)
            &&& after[id].counter(first) == counter_value(first_value)->0
            &&& after[id].counter(second) == counter_value(second_value)->0
        }),
{
    crate::applications::counters_share_a_record(
        records,
        resolved_identifier(first_name, env),
        first,
        counter_value(first_value)->0,
        second,
        counter_value(second_value)->0,
    );
}

/// A key that is not there keeps none of the other three from being read:
/// the records are what the other three make of them, in their order.
pub proof fn absent_key_is_passed_over(
    records: Map<ApplicationIdentifier, ApplicationUsage>,
    env: Map<Seq<char>, Seq<char>>,
    usage: FeatureUsage,
)
    ensures
        usage.app_badge_updated is None ==> merged_feature_usage(records, env, usage)
            == merged_optional(
            merged_optional(
                merged_optional(records, env, UsageCounter::Launches, usage.app_launch),
                env,
                UsageCounter::Switches,
                usage.app_switched,
            ),
            env,
            UsageCounter::JumpViewClicks,
            usage.show_jump_view,
        ),
        usage.app_launch is None ==> merged_feature_usage(records, env, usage) == merged_optional(
            merged_optional(
                merged_optional(records, env, UsageCounter::BadgeUpdates, usage.app_badge_updated),
                env,
                UsageCounter::Switches,
                usage.app_switched,
            ),
            env,
            UsageCounter::JumpViewClicks,
            usage.show_jump_view,
        ),
        usage.app_switched is None ==> merged_feature_usage(records, env, usage) == merged_optional(
            merged_optional(
                merged_optional(records, env, UsageCounter::BadgeUpdates, usage.app_badge_updated),
                env,
                UsageCounter::Launches,
                usage.app_launch,
            ),
            env,
            UsageCounter::JumpViewClicks,
            usage.show_jump_view,
        ),
        usage.show_jump_view is None ==> merged_feature_usage(records, env, usage)
            == merged_optional(
            merged_optional(
                merged_optional(records, env, UsageCounter::BadgeUpdates, usage.app_badge_updated),
                env,
                UsageCounter::Launches,
                usage.app_launch,
            ),
            env,
            UsageCounter::Switches,
            usage.app_switched,
        ),
{
}

/// A key that is not there counts as a key without values.
pub proof fn absent_key_reads_as_empty(
    records: Map<ApplicationIdentifier, ApplicationUsage>,
    env: Map<Seq<char>, Seq<char>>,
    user_sid: Seq<char>,
    counter: UsageCounter,
    values: Vec<(String, RegistryValue)>,
)
    requires
        values@.len() == 0,
    ensures
        merged_optional(records, env, counter, Some(values)) == merged_optional(
            records,
            env,
            counter,
            None,
        ),
        skipped_in_optional(user_sid, counter, Some(values)) == skipped_in_optional(
            user_sid,
            counter,
            None,
        ),
{
}

/// Whether nothing can be read for a user: it is the default profile, its
/// keys cannot be opened, or none of its four keys is there.
pub open spec fn has_nothing_to_read(user: UserFeatureUsage) -> bool {
    ||| !names_user(user.user_sid@)
    ||| user.feature_usage is None
    ||| {
        &&& user.feature_usage->0.app_badge_updated is None
        &&& user.feature_usage->0.app_launch is None
        &&& user.feature_usage->0.app_switched is None
        &&& user.feature_usage->0.show_jump_view is None
    }
}

/// A user for whom nothing can be read keeps no other user from being
/// read: the records and the report are what they are without that user.
pub proof fn absent_user_is_passed_over(
    records: Map<ApplicationIdentifier, ApplicationUsage>,
    users: Seq<UserFeatureUsage>,
    i: int,
)
    requires
        0 <= i < users.len(),
        has_nothing_to_read(users[i]),
    ensures
        merged_users(records, users) == merged_users(records, users.remove(i)),
        skipped_of_users(users) == skipped_of_users(users.remove(i)),
    decreases users.len(),
{
    if i == users.len() - 1 {
        assert(users.remove(i) =~= users.drop_last());
        assert(skipped_of_user(users[i]) =~= Seq::<SkippedEntry>::empty());
        assert(skipped_of_users(users) =~= skipped_of_users(users.drop_last()));
    } else {
        absent_user_is_passed_over(records, users.drop_last(), i);
        assert(users.remove(i).drop_last() =~= users.drop_last().remove(i));
        assert(users.remove(i).last() == users.last());
    }
}

/// Two registry values may be read in either order, unless they are read
/// for one counter and their names resolve to one application.
pub proof fn entries_commute(
    records: Map<ApplicationIdentifier, ApplicationUsage>,
    env: Map<Seq<char>, Seq<char>>,
    first: UsageCounter,
    first_name: Seq<char>,
    first_value: RegistryValue,
    second: UsageCounter,
    second_name: Seq<char>,
    second_value: RegistryValue,
)
    requires
        first != second || resolved_identifier(first_name, env) != resolved_identifier(
            second_name,
            env,
        ),
    ensures
        merged_entry(
            merged_entry(records, env, first, first_name, first_value),
            env,
            second,
            second_name,
            second_value,
        ) == merged_entry(
            merged_entry(records, env, second, second_name, second_value),
            env,
            first,
            first_name,
            first_value,
        ),
{
    if first_name.len() > 0 && second_name.len() > 0 {
        if let Some(a) = counter_value(first_value) {
            if let Some(b) = counter_value(second_value) {
                crate::applications::values_commute(
                    records,
                    resolved_identifier(first_name, env),
                    first,
                    a,
                    resolved_identifier(second_name, env),
                    second,
                    b,
                );
            }
        }
    }
}

/// A value read for one counter may be read before or after the key of
/// another counter.
proof fn entry_passes_key(
    records: Map<ApplicationIdentifier, ApplicationUsage>,
    env: Map<Seq<char>, Seq<char>>,
    key: UsageCounter,
    values: Seq<(String, RegistryValue)>,
    other: UsageCounter,
    name: Seq<char>,
    value: RegistryValue,
)
    requires
        key != other,
    ensures
        merged_entry(merged_subtree(records, env, key, values), env, other, name, value)
            == merged_subtree(merged_entry(records, env, other, name, value), env, key, values),
    decreases values.len(),
{
    if values.len() > 0 {
        let before = merged_subtree(records, env, key, values.drop_last());
        entries_commute(
            before,
            env,
            key,
            values.last().0@,
            values.last().1,
            other,
            name,
            value,
        );
        entry_passes_key(records, env, key, values.drop_last(), other, name, value);
    }
}

/// The keys of two different counters may be read in either order.
pub proof fn keys_commute(
    records: Map<ApplicationIdentifier, ApplicationUsage>,
    env: Map<Seq<char>, Seq<char>>,
    first: UsageCounter,
    first_values: Seq<(String, RegistryValue)>,
    second: UsageCounter,
    second_values: Seq<(String, RegistryValue)>,
)
    requires
        first != second,
    ensures
        merged_subtree(
            merged_subtree(records, env, first, first_values),
            env,
            second,
            second_values,
        ) == merged_subtree(
            merged_subtree(records, env, second, second_values),
            env,
            first,
            first_values,
        ),
    decreases second_values.len(),
{
    if second_values.len() > 0 {
        keys_commute(records, env, first, first_values, second, second_values.drop_last());
        entry_passes_key(
            merged_subtree(records, env, second, second_values.drop_last()),
            env,
            first,
            first_values,
            second,
            second_values.last().0@,
            second_values.last().1,
        );
    }
}

} // verus!
