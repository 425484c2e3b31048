//! The in-memory stores: vaults, events, audit trail, backups, shares.

use crate::cache;
use crate::cache::{Slot, VaultCache};
use crate::clock::{Instant, Timestamp};
use crate::json::Json;
use crate::models::{
    AuditEntry, Mean, SearchQuery, SearchResult, ShareToken, TimeSeriesPoint, Vault, VaultAnalytics,
    VaultBackup, VaultEvent, VaultNotificationPreferences, VaultShare, VaultStatus, VaultSummary,
};
use crate::ratio::Ratio;
use crate::sequences;
use crate::strmap::StrMap;
use crate::text;
use crate::text::{is_before, parse_unsigned, str_eq};
use vstd::prelude::*;

verus! {

/// Vaults by ID.
pub type VaultStore = StrMap<Vault>;

/// Vault events, oldest first.
pub type EventStore = Vec<VaultEvent>;

/// Audit entries, oldest first.
pub type AuditStore = Vec<AuditEntry>;

/// Backups by backup ID.
pub type BackupStore = StrMap<VaultBackup>;

/// Shares, oldest first.
pub type ShareStore = Vec<VaultShare>;

/// Share tokens by token.
pub type ShareTokenStore = StrMap<ShareToken>;

/// Notification preferences by owner.
pub type NotificationStore = StrMap<VaultNotificationPreferences>;

/// A store without vaults.
pub fn create_vault_store() -> (r: VaultStore)
    ensures
        r@ == Map::<Seq<char>, Vault>::empty(),
        r.order().len() == 0,
{
    StrMap::new()
}

/// A store without events.
pub fn create_event_store() -> (r: EventStore)
    ensures
        r@ == Seq::<VaultEvent>::empty(),
{
    Vec::new()
}

/// A store without audit entries.
pub fn create_audit_store() -> (r: AuditStore)
    ensures
        r@ == Seq::<AuditEntry>::empty(),
{
    Vec::new()
}

/// A store without backups.
pub fn create_backup_store() -> (r: BackupStore)
    ensures
        r@ == Map::<Seq<char>, VaultBackup>::empty(),
{
    StrMap::new()
}

/// A store without shares.
pub fn create_share_store() -> (r: ShareStore)
    ensures
        r@ == Seq::<VaultShare>::empty(),
{
    Vec::new()
}

/// A store without share tokens.
pub fn create_share_token_store() -> (r: ShareTokenStore)
    ensures
        r@ == Map::<Seq<char>, ShareToken>::empty(),
{
    StrMap::new()
}

/// A store without notification preferences.
pub fn create_notification_store() -> (r: NotificationStore)
    ensures
        r@ == Map::<Seq<char>, VaultNotificationPreferences>::empty(),
{
    StrMap::new()
}

/// Whether a vault is what the query asks for. A criterion that is not given
/// is met by every vault.
pub open spec fn matches(v: Vault, q: SearchQuery) -> bool {
    &&& q.owner is Some ==> v.owner@ == q.owner->0@
    &&& q.beneficiary is Some ==> v.beneficiary@ == q.beneficiary->0@
    &&& q.status is Some ==> v.status == q.status->0
    &&& q.created_after is Some ==> !v.created_at.before(q.created_after->0)
    &&& q.created_before is Some ==> !q.created_before->0.before(v.created_at)
}

/// Whether a vault is what the query asks for.
pub fn vault_matches(v: &Vault, q: &SearchQuery) -> (r: bool)
    ensures
        r == matches(*v, *q),
{
    match &q.owner {
        Some(owner) => if !str_eq(v.owner.as_str(), owner.as_str()) {
            return false;
        },
        None => {},
    }
    match &q.beneficiary {
        Some(b) => if !str_eq(v.beneficiary.as_str(), b.as_str()) {
            return false;
        },
        None => {},
    }
    match q.status {
        Some(status) => if v.status != status {
            return false;
        },
        None => {},
    }
    match q.created_after {
        Some(after) => if v.created_at.is_before(&after) {
            return false;
        },
        None => {},
    }
    match q.created_before {
        Some(before) => if before.is_before(&v.created_at) {
            return false;
        },
        None => {},
    }
    true
}

/// The page that the query asks for: the first unless it says otherwise.
pub open spec fn page_of(q: SearchQuery) -> u32 {
    match q.page {
        Some(p) => p,
        None => 1,
    }
}

/// The size of a page: ten unless the query says otherwise.
pub open spec fn limit_of(q: SearchQuery) -> u32 {
    match q.limit {
        Some(l) => l,
        None => 10,
    }
}

/// Pages are counted from one, and the first vault of a page has a number of
/// 32 bits.
pub open spec fn page_in_range(q: SearchQuery) -> bool {
    page_of(q) >= 1 && (page_of(q) - 1) * limit_of(q) <= u32::MAX
}

/// The vaults of a store that the query asks for, in the order of the store.
pub open spec fn found(store: VaultStore, q: SearchQuery) -> Seq<Vault> {
    store.contents().filter(|v: Vault| matches(v, q))
}

/// `n` items from `offset` on, or fewer where the end comes first.
pub open spec fn window<T>(s: Seq<T>, offset: int, n: int) -> Seq<T> {
    if offset >= s.len() {
        Seq::empty()
    } else if offset + n >= s.len() {
        s.subrange(offset, s.len() as int)
    } else {
        s.subrange(offset, offset + n)
    }
}

/// The vaults that match a query, one page of them.
pub fn search_vaults(store: &VaultStore, query: &SearchQuery) -> (r: SearchResult)
    requires
        page_in_range(*query),
    ensures
        r.page == page_of(*query),
        r.limit == limit_of(*query),
        r.total == found(*store, *query).len() as u32,
        r.vaults@ == window(
            found(*store, *query),
            (r.page - 1) * r.limit,
            r.limit as int,
        ),
        query.page is Some ==> r.page == query.page->0,
        query.page is None ==> r.page == 1,
        query.limit is Some ==> r.limit == query.limit->0,
        query.limit is None ==> r.limit == 10,
        r.vaults@.len() <= r.limit,
        forall|i: int|
            0 <= i < r.vaults@.len() ==> {
                let v = #[trigger] r.vaults@[i];
                &&& store.contents().contains(v)
                &&& query.owner is Some ==> v.owner@ == query.owner->0@
                &&& query.beneficiary is Some ==> v.beneficiary@ == query.beneficiary->0@
                &&& query.status is Some ==> v.status == query.status->0
                &&& query.created_after is Some ==> v.created_at.moment()
                    >= query.created_after->0.moment()
                &&& query.created_before is Some ==> v.created_at.moment()
                    <= query.created_before->0.moment()
            },
{
    let page: u32 = match query.page {
        Some(p) => p,
        None => 1,
    };
    let limit: u32 = match query.limit {
        Some(l) => l,
        None => 10,
    };
    let offset: usize = ((page - 1) * limit) as usize;
    let n: usize = store.len();
    let mut filtered: Vec<Vault> = Vec::new();
    let ghost pred = |v: Vault| matches(v, *query);
    let ghost all = store.contents();
    let mut i: usize = 0;
    proof {
        reveal(Seq::filter);
        assert(all.take(0).filter(pred) =~= Seq::<Vault>::empty());
    }
    while i < n
        invariant
            i <= n,
            n == all.len(),
            n == store.order().len(),
            all == store.contents(),
            pred == |v: Vault| matches(v, *query),
            filtered@ == all.take(i as int).filter(pred),
        decreases n - i,
    {
        let v = store.value_at(i);
        proof {
            reveal(Seq::filter);
            assert(all.take(i + 1).drop_last() =~= all.take(i as int));
            assert(all.take(i + 1).last() == *v);
        }
        if vault_matches(v, query) {
            filtered.push(v.clone());
        }
        i += 1;
    }
    assert(all.take(n as int) =~= all);
    let total: u32 = filtered.len() as u32;
    let count: usize = filtered.len();
    let mut paginated: Vec<Vault> = Vec::new();
    let mut j: usize = offset;
    while j < count && paginated.len() < limit as usize
        invariant
            count == filtered@.len(),
            offset <= j,
            j <= count || j == offset,
            paginated@.len() == j - offset,
            paginated@.len() <= limit,
            offset <= count ==> paginated@ == filtered@.subrange(offset as int, j as int),
        decreases count - j,
    {
        paginated.push(filtered[j].clone());
        j += 1;
        assert(paginated@ =~= filtered@.subrange(offset as int, j as int));
    }
    assert(paginated@ =~= window(filtered@, offset as int, limit as int));
    assert forall|i: int| 0 <= i < paginated@.len() implies {
        let v = #[trigger] paginated@[i];
        &&& all.contains(v)
        &&& query.owner is Some ==> v.owner@ == query.owner->0@
        &&& query.beneficiary is Some ==> v.beneficiary@ == query.beneficiary->0@
        &&& query.status is Some ==> v.status == query.status->0
        &&& query.created_after is Some ==> v.created_at.moment()
            >= query.created_after->0.moment()
        &&& query.created_before is Some ==> v.created_at.moment()
            <= query.created_before->0.moment()
    } by {
        let v = paginated@[i];
        assert(v == filtered@[offset + i]);
        assert(filtered@.contains(v));
        sequences::lemma_filter_counts(all, pred, v);
    }
    SearchResult { vaults: paginated, total, page, limit }
}

/// The events of a vault, oldest first.
pub fn get_vault_history(event_store: &EventStore, vault_id: &str) -> (r: Vec<VaultEvent>)
    ensures
        r@ == event_store@.filter(|e: VaultEvent| e.vault_id@ == vault_id@),
{
    let mut out: Vec<VaultEvent> = Vec::new();
    let ghost pred = |e: VaultEvent| e.vault_id@ == vault_id@;
    let mut i: usize = 0;
    proof {
        reveal(Seq::filter);
        assert(event_store@.take(0).filter(pred) =~= Seq::<VaultEvent>::empty());
    }
    while i < event_store.len()
        invariant
            i <= event_store.len(),
            pred == |e: VaultEvent| e.vault_id@ == vault_id@,
            out@ == event_store@.take(i as int).filter(pred),
        decreases event_store.len() - i,
    {
        proof {
            reveal(Seq::filter);
            assert(event_store@.take(i + 1).drop_last() =~= event_store@.take(i as int));
        }
        if str_eq(event_store[i].vault_id.as_str(), vault_id) {
            out.push(event_store[i].clone());
        }
        i += 1;
    }
    assert(event_store@.take(i as int) =~= event_store@);
    out
}

/// The audit entries whose details name the vault, oldest first.
pub fn get_vault_audit_log(audit_store: &AuditStore, vault_id: &str) -> (r: Vec<AuditEntry>)
    ensures
        r@ == audit_store@.filter(
            |a: AuditEntry| a.details.member_text("vault_id"@) == Some(vault_id@),
        ),
{
    let mut out: Vec<AuditEntry> = Vec::new();
    let ghost pred = |a: AuditEntry| a.details.member_text("vault_id"@) == Some(vault_id@);
    let mut i: usize = 0;
    proof {
        reveal(Seq::filter);
        assert(audit_store@.take(0).filter(pred) =~= Seq::<AuditEntry>::empty());
    }
    while i < audit_store.len()
        invariant
            i <= audit_store.len(),
            pred == |a: AuditEntry| a.details.member_text("vault_id"@) == Some(vault_id@),
            out@ == audit_store@.take(i as int).filter(pred),
        decreases audit_store.len() - i,
    {
        proof {
            reveal(Seq::filter);
            assert(audit_store@.take(i + 1).drop_last() =~= audit_store@.take(i as int));
        }
        let named: bool = match audit_store[i].details.get_str("vault_id") {
            Some(id) => str_eq(id, vault_id),
            None => false,
        };
        if named {
            out.push(audit_store[i].clone());
        }
        i += 1;
    }
    assert(audit_store@.take(i as int) =~= audit_store@);
    out
}

/// How many vaults have the given status.
pub open spec fn count_status(vaults: Seq<Vault>, status: VaultStatus) -> nat
    decreases vaults.len(),
{
    if vaults.len() == 0 {
        0
    } else {
        count_status(vaults.drop_last(), status) + if vaults.last().status == status {
            1nat
        } else {
            0nat
        }
    }
}

/// The check-in intervals of the vaults, added up.
pub open spec fn interval_sum(vaults: Seq<Vault>) -> nat
    decreases vaults.len(),
{
    if vaults.len() == 0 {
        0
    } else {
        interval_sum(vaults.drop_last()) + vaults.last().check_in_interval as nat
    }
}

/// How many vaults were created on the given day.
pub open spec fn created_on(vaults: Seq<Vault>, day: Seq<char>) -> nat
    decreases vaults.len(),
{
    if vaults.len() == 0 {
        0
    } else {
        created_on(vaults.drop_last(), day) + if vaults.last().created_at.day() == day {
            1nat
        } else {
            0nat
        }
    }
}

/// How many vaults that were created on the given day have been released.
pub open spec fn released_on(vaults: Seq<Vault>, day: Seq<char>) -> nat
    decreases vaults.len(),
{
    if vaults.len() == 0 {
        0
    } else {
        released_on(vaults.drop_last(), day) + if vaults.last().created_at.day() == day
            && vaults.last().status == VaultStatus::Released {
            1nat
        } else {
            0nat
        }
    }
}

/// Whether the points come in the order of their dates, each date once.
pub open spec fn in_date_order(series: Seq<TimeSeriesPoint>) -> bool {
    forall|i: int, j: int|
        0 <= i < j < series.len() ==> text::before(
            (#[trigger] series[i]).date@,
            (#[trigger] series[j]).date@,
        )
}

/// Whether the points are the days on which vaults were created, with the
/// numbers of those days.
pub open spec fn charts(series: Seq<TimeSeriesPoint>, vaults: Seq<Vault>) -> bool {
    &&& in_date_order(series)
    &&& forall|i: int|
        0 <= i < series.len() ==> {
            &&& (#[trigger] series[i]).vaults_created == created_on(vaults, series[i].date@)
            &&& series[i].vaults_released == released_on(vaults, series[i].date@)
            &&& series[i].vaults_created > 0
        }
    &&& forall|day: Seq<char>| #[trigger]
        created_on(vaults, day) > 0 ==> exists|i: int|
            0 <= i < series.len() && (#[trigger] series[i]).date@ == day
}

/// Counts of days are bounded by the number of vaults.
proof fn lemma_day_counts(vaults: Seq<Vault>, day: Seq<char>)
    ensures
        released_on(vaults, day) <= created_on(vaults, day) <= vaults.len(),
    decreases vaults.len(),
{
    if vaults.len() > 0 {
        lemma_day_counts(vaults.drop_last(), day);
    }
}

/// A day in a chart has one point.
proof fn lemma_days_differ(series: Seq<TimeSeriesPoint>, i: int, j: int)
    requires
        in_date_order(series),
        0 <= i < series.len(),
        0 <= j < series.len(),
        i != j,
    ensures
        series[i].date@ != series[j].date@,
{
    if i < j {
        assert(text::before(series[i].date@, series[j].date@));
    } else {
        assert(text::before(series[j].date@, series[i].date@));
    }
    text::lemma_before_irreflexive(series[i].date@);
}

/// Counts one more vault in a chart.
fn chart_vault(series: &mut Vec<TimeSeriesPoint>, v: &Vault, earlier: Ghost<Seq<Vault>>)
    requires
        charts(old(series)@, earlier@),
        earlier@.len() < usize::MAX,
    ensures
        charts(final(series)@, earlier@.push(*v)),
{
    let day = v.created_at.day_label();
    let ghost d = day@;
    let ghost before = series@;
    let ghost vaults = earlier@.push(*v);
    assert(vaults.drop_last() =~= earlier@);
    let released: bool = v.status == VaultStatus::Released;
    let mut i: usize = 0;
    while i < series.len() && is_before(series[i].date.as_str(), day.as_str())
        invariant
            i <= series.len(),
            series@ == before,
            day@ == d,
            forall|j: int| 0 <= j < i ==> text::before((#[trigger] series@[j]).date@, d),
        decreases series.len() - i,
    {
        i += 1;
    }
    proof {
        lemma_day_counts(earlier@, d);
    }
    if i < series.len() && str_eq(series[i].date.as_str(), day.as_str()) {
        let created: u64 = series[i].vaults_created + 1;
        let gone: u64 = if released {
            series[i].vaults_released + 1
        } else {
            series[i].vaults_released
        };
        let date = series[i].date.clone();
        series.set(
            i,
            TimeSeriesPoint { date, vaults_created: created, vaults_released: gone },
        );
        proof {
            assert forall|j: int| 0 <= j < series@.len() implies {
                &&& (#[trigger] series@[j]).vaults_created == created_on(vaults, series@[j].date@)
                &&& series@[j].vaults_released == released_on(vaults, series@[j].date@)
                &&& series@[j].vaults_created > 0
            } by {
                if j != i {
                    assert(series@[j] == before[j]);
                    lemma_days_differ(before, i as int, j);
                }
            }
            assert forall|x: Seq<char>| #[trigger] created_on(vaults, x) > 0 implies exists|j: int|
                0 <= j < series@.len() && (#[trigger] series@[j]).date@ == x by {
                if x != d {
                    assert(created_on(earlier@, x) > 0);
                    let j = choose|j: int| 0 <= j < before.len() && (#[trigger] before[j]).date@ == x;
                    assert(series@[j].date@ == x);
                } else {
                    assert(series@[i as int].date@ == x);
                }
            }
        }
    } else {
        let ghost at = i as int;
        proof {
            assert forall|j: int| at <= j < before.len() implies text::before(
                d,
                (#[trigger] before[j]).date@,
            ) by {
                text::lemma_before_total(before[at].date@, d);
                if j > at {
                    text::lemma_before_transitive(d, before[at].date@, before[j].date@);
                }
            }
            assert forall|j: int| 0 <= j < before.len() implies (#[trigger] before[j]).date@ != d by {
                text::lemma_before_irreflexive(d);
            }
            assert(created_on(earlier@, d) == 0);
        }
        let point = TimeSeriesPoint {
            date: day,
            vaults_created: 1,
            vaults_released: if released {
                1
            } else {
                0
            },
        };
        series.insert(i, point);
        proof {
            assert forall|j: int, k: int| 0 <= j < k < series@.len() implies text::before(
                (#[trigger] series@[j]).date@,
                (#[trigger] series@[k]).date@,
            ) by {
                let j0 = if j < at { j } else { j - 1 };
                let k0 = if k < at { k } else { k - 1 };
                if j != at {
                    assert(series@[j] == before[j0]);
                }
                if k != at {
                    assert(series@[k] == before[k0]);
                }
            }
            assert forall|j: int| 0 <= j < series@.len() implies {
                &&& (#[trigger] series@[j]).vaults_created == created_on(vaults, series@[j].date@)
                &&& series@[j].vaults_released == released_on(vaults, series@[j].date@)
                &&& series@[j].vaults_created > 0
            } by {
                if j != at {
                    let j0 = if j < at { j } else { j - 1 };
                    assert(series@[j] == before[j0]);
                }
            }
            assert forall|x: Seq<char>| #[trigger] created_on(vaults, x) > 0 implies exists|j: int|
                0 <= j < series@.len() && (#[trigger] series@[j]).date@ == x by {
                if x != d {
                    assert(created_on(earlier@, x) > 0);
                    let j = choose|j: int| 0 <= j < before.len() && (#[trigger] before[j]).date@ == x;
                    let j1 = if j < at { j } else { j + 1 };
                    assert(series@[j1] == before[j]);
                } else {
                    assert(series@[at].date@ == x);
                }
            }
        }
    }
}

/// Counts of a status are bounded by the number of vaults.
proof fn lemma_status_count(vaults: Seq<Vault>, status: VaultStatus)
    ensures
        count_status(vaults, status) <= vaults.len(),
    decreases vaults.len(),
{
    if vaults.len() > 0 {
        lemma_status_count(vaults.drop_last(), status);
    }
}

/// Figures over all vaults of a store: how many there are and how many are
/// active, their mean check-in interval, the share that has been released, and
/// the days on which they were created.
pub fn compute_vault_analytics(store: &VaultStore) -> (r: VaultAnalytics)
    ensures
        r.total_vaults == store@.len(),
        r.active_vaults == count_status(store.contents(), VaultStatus::Active),
        r.average_ttl_seconds.sum == interval_sum(store.contents()),
        r.average_ttl_seconds.count == store@.len(),
        r.release_rate == (if store@.len() == 0 {
            Ratio { num: 0, den: 1 }
        } else {
            Ratio {
                num: count_status(store.contents(), VaultStatus::Released) as u64,
                den: store@.len() as u64,
            }
        }),
        charts(r.time_series@, store.contents()),
{
    let n: usize = store.len();
    let ghost all = store.contents();
    let mut active: u64 = 0;
    let mut released: u64 = 0;
    let mut sum: u128 = 0;
    let mut series: Vec<TimeSeriesPoint> = Vec::new();
    let mut i: usize = 0;
    while i < n
        invariant
            i <= n,
            n == all.len(),
            n == store.order().len(),
            all == store.contents(),
            active <= i,
            released <= i,
            active == count_status(all.take(i as int), VaultStatus::Active),
            released == count_status(all.take(i as int), VaultStatus::Released),
            sum == interval_sum(all.take(i as int)),
            sum <= i * 0xffff_ffff_ffff_ffff,
            charts(series@, all.take(i as int)),
        decreases n - i,
    {
        let v = store.value_at(i);
        let ghost earlier = all.take(i as int);
        proof {
            assert(all.take(i + 1).drop_last() =~= earlier);
            assert(all.take(i + 1) =~= earlier.push(*v));
            assert(i * 0xffff_ffff_ffff_ffff + 0xffff_ffff_ffff_ffff == (i + 1)
                * 0xffff_ffff_ffff_ffff);
        }
        if v.status == VaultStatus::Active {
            active += 1;
        }
        if v.status == VaultStatus::Released {
            released += 1;
        }
        sum += v.check_in_interval as u128;
        chart_vault(&mut series, v, Ghost(earlier));
        i += 1;
    }
    assert(all.take(n as int) =~= all);
    let total: u64 = n as u64;
    VaultAnalytics {
        total_vaults: total,
        active_vaults: active,
        average_ttl_seconds: Mean { sum, count: total },
        release_rate: if total == 0 {
            Ratio { num: 0, den: 1 }
        } else {
            Ratio { num: released, den: total }
        },
        time_series: series,
    }
}

/// Keeps a backup under its ID, in place of an earlier one with the same ID.
pub fn store_backup(backup_store: &mut BackupStore, backup: VaultBackup)
    ensures
        final(backup_store)@ == old(backup_store)@.insert(backup.backup_id@, backup),
{
    let id = backup.backup_id.clone();
    let _previous = backup_store.insert(id, backup);
}

/// What a store holds under a key.
pub open spec fn entry<V>(m: Map<Seq<char>, V>, key: Seq<char>) -> Option<V> {
    if m.contains_key(key) {
        Some(m[key])
    } else {
        None
    }
}

/// The backup with the given ID.
pub fn get_backup(backup_store: &BackupStore, backup_id: &str) -> (r: Option<VaultBackup>)
    ensures
        r == entry(backup_store@, backup_id@),
{
    match backup_store.get(backup_id) {
        Some(b) => Some(b.clone()),
        None => None,
    }
}

/// Adds a share.
pub fn add_vault_share(share_store: &mut ShareStore, share: VaultShare)
    ensures
        final(share_store)@ == old(share_store)@.push(share),
{
    share_store.push(share);
}

/// The shares of a vault, oldest first.
pub fn get_vault_shares(share_store: &ShareStore, vault_id: &str) -> (r: Vec<VaultShare>)
    ensures
        r@ == share_store@.filter(|s: VaultShare| s.vault_id@ == vault_id@),
{
    let mut out: Vec<VaultShare> = Vec::new();
    let ghost pred = |s: VaultShare| s.vault_id@ == vault_id@;
    let mut i: usize = 0;
    proof {
        reveal(Seq::filter);
        assert(share_store@.take(0).filter(pred) =~= Seq::<VaultShare>::empty());
    }
    while i < share_store.len()
        invariant
            i <= share_store.len(),
            pred == |s: VaultShare| s.vault_id@ == vault_id@,
            out@ == share_store@.take(i as int).filter(pred),
        decreases share_store.len() - i,
    {
        proof {
            reveal(Seq::filter);
            assert(share_store@.take(i + 1).drop_last() =~= share_store@.take(i as int));
        }
        if str_eq(share_store[i].vault_id.as_str(), vault_id) {
            out.push(share_store[i].clone());
        }
        i += 1;
    }
    assert(share_store@.take(i as int) =~= share_store@);
    out
}

/// Keeps a share token, in place of an earlier one with the same text.
pub fn add_share_token(store: &mut ShareTokenStore, token: ShareToken)
    ensures
        final(store)@ == old(store)@.insert(token.token@, token),
{
    let id = token.token.clone();
    let _previous = store.insert(id, token);
}

/// The share token with the given text.
pub fn get_share_token(store: &ShareTokenStore, token: &str) -> (r: Option<ShareToken>)
    ensures
        r == entry(store@, token@),
{
    match store.get(token) {
        Some(t) => Some(t.clone()),
        None => None,
    }
}

/// The share tokens of a vault.
pub fn get_vault_share_tokens(store: &ShareTokenStore, vault_id: &str) -> (r: Vec<ShareToken>)
    ensures
        r@ == store.contents().filter(|t: ShareToken| t.vault_id@ == vault_id@),
{
    let n: usize = store.len();
    let ghost all = store.contents();
    let ghost pred = |t: ShareToken| t.vault_id@ == vault_id@;
    let mut out: Vec<ShareToken> = Vec::new();
    let mut i: usize = 0;
    proof {
        reveal(Seq::filter);
        assert(all.take(0).filter(pred) =~= Seq::<ShareToken>::empty());
    }
    while i < n
        invariant
            i <= n,
            n == all.len(),
            n == store.order().len(),
            all == store.contents(),
            pred == |t: ShareToken| t.vault_id@ == vault_id@,
            out@ == all.take(i as int).filter(pred),
        decreases n - i,
    {
        let t = store.value_at(i);
        proof {
            reveal(Seq::filter);
            assert(all.take(i + 1).drop_last() =~= all.take(i as int));
            assert(all.take(i + 1).last() == *t);
        }
        if str_eq(t.vault_id.as_str(), vault_id) {
            out.push(t.clone());
        }
        i += 1;
    }
    assert(all.take(n as int) =~= all);
    out
}

/// Marks a share token as revoked and returns it.
pub fn revoke_share_token(store: &mut ShareTokenStore, token: &str) -> (r: Option<ShareToken>)
    ensures
        match r {
            Some(t) => {
                &&& old(store)@.contains_key(token@)
                &&& t == (ShareToken { revoked: true, ..old(store)@[token@] })
                &&& final(store)@ == old(store)@.insert(token@, t)
            },
            None => !old(store)@.contains_key(token@) && final(store)@ == old(store)@,
        },
{
    match store.get_mut(token) {
        Some(t) => {
            t.revoked = true;
            Some(t.clone())
        },
        None => None,
    }
}

/// Adds an audit entry made at `now`.
pub fn append_audit_entry_at(
    audit_store: &mut AuditStore,
    action: &str,
    actor: &str,
    details: Json,
    now: Timestamp,
)
    ensures
        final(audit_store)@.len() == old(audit_store)@.len() + 1,
        final(audit_store)@.drop_last() == old(audit_store)@,
        final(audit_store)@.last().timestamp == now,
        final(audit_store)@.last().action@ == action@,
        final(audit_store)@.last().actor@ == actor@,
        final(audit_store)@.last().details == details,
{
    audit_store.push(
        AuditEntry { timestamp: now, action: action.to_owned(), actor: actor.to_owned(), details },
    );
    assert(audit_store@.drop_last() =~= old(audit_store)@);
}

/// Adds an audit entry made now.
pub fn append_audit_entry(audit_store: &mut AuditStore, action: &str, actor: &str, details: Json)
    ensures
        final(audit_store)@.len() == old(audit_store)@.len() + 1,
        final(audit_store)@.drop_last() == old(audit_store)@,
        final(audit_store)@.last().action@ == action@,
        final(audit_store)@.last().actor@ == actor@,
        final(audit_store)@.last().details == details,
{
    append_audit_entry_at(audit_store, action, actor, details, Timestamp::now());
}

/// Keeps an owner's notification preferences, in place of earlier ones.
pub fn set_notification_preferences(
    notif_store: &mut NotificationStore,
    prefs: VaultNotificationPreferences,
)
    ensures
        final(notif_store)@ == old(notif_store)@.insert(prefs.owner@, prefs),
{
    let owner = prefs.owner.clone();
    let _previous = notif_store.insert(owner, prefs);
}

/// The notification preferences of an owner.
pub fn get_notification_preferences(notif_store: &NotificationStore, owner: &str) -> (r: Option<
    VaultNotificationPreferences,
>)
    ensures
        r == entry(notif_store@, owner@),
{
    match notif_store.get(owner) {
        Some(p) => Some(p.clone()),
        None => None,
    }
}

/// Whether a read through the cache went as it should: from the cache where it
/// holds a value that can be decoded, else from the store, whose value then
/// goes into the cache.
pub open spec fn read_through<T, E: Fn(&T) -> Vec<u8>, D: Fn(&Vec<u8>) -> Option<T>>(
    before: cache::CacheModel,
    after: cache::CacheModel,
    slot: Slot,
    id: Seq<char>,
    fresh: Option<T>,
    encode: E,
    decode: D,
    now: Instant,
    r: Option<T>,
) -> bool {
    let hit = before.read(slot, id, now);
    let read = before.after_read(slot, id, now);
    let missed = hit is None || exists|b: Vec<u8>| #[trigger]
        decode.ensures((&b,), None) && hit == Some(b@);
    ||| r is Some && after == read && exists|b: Vec<u8>| #[trigger]
        decode.ensures((&b,), r) && hit == Some(b@)
    ||| missed && fresh is None && r is None && after == read
    ||| missed && fresh is Some && r == fresh && exists|b: Vec<u8>| #[trigger]
        encode.ensures((&fresh->0,), b) && read.after_write(after, slot, id, b@, now)
}

/// Reads a value through the cache at `now`; `fresh` is what the store has.
pub fn read_through_at<T, E: Fn(&T) -> Vec<u8>, D: Fn(&Vec<u8>) -> Option<T>>(
    cache: &mut VaultCache,
    slot: Slot,
    vault_id: &str,
    fresh: Option<T>,
    encode: E,
    decode: D,
    now: Instant,
) -> (r: Option<T>)
    requires
        forall|v: T| #[trigger] encode.requires((&v,)),
        forall|b: Vec<u8>| #[trigger] decode.requires((&b,)),
    ensures
        read_through(
            old(cache)@,
            final(cache)@,
            slot,
            vault_id@,
            fresh,
            encode,
            decode,
            now,
            r,
        ),
{
    match cache.get_at(slot, vault_id, now) {
        Some(bytes) => {
            let decoded = decode(&bytes);
            if decoded.is_some() {
                return decoded;
            }
        },
        None => {},
    }
    match fresh {
        Some(v) => {
            let bytes = encode(&v);
            cache.set_at(slot, vault_id, bytes, now);
            Some(v)
        },
        None => None,
    }
}

/// Retrieve a vault from the store, consulting the cache first.
///
/// On a cache miss the vault is fetched from `store`, inserted into the cache
/// and then returned. Returns `None` if the vault does not exist in the store.
/// The caller brings the serialisation.
pub fn get_vault_cached<E: Fn(&Vault) -> Vec<u8>, D: Fn(&Vec<u8>) -> Option<Vault>>(
    store: &VaultStore,
    cache: &mut VaultCache,
    vault_id: &str,
    encode: E,
    decode: D,
) -> (r: Option<Vault>)
    requires
        forall|v: Vault| #[trigger] encode.requires((&v,)),
        forall|b: Vec<u8>| #[trigger] decode.requires((&b,)),
    ensures
        exists|now: Instant| #[trigger]
            read_through(
                old(cache)@,
                final(cache)@,
                Slot::Vault,
                vault_id@,
                entry(store@, vault_id@),
                encode,
                decode,
                now,
                r,
            ),
{
    let fresh = match store.get(vault_id) {
        Some(v) => Some(v.clone()),
        None => None,
    };
    let now = cache.now();
    read_through_at(cache, Slot::Vault, vault_id, fresh, encode, decode, now)
}

/// The remaining TTL of a vault of the store.
pub open spec fn stored_ttl(m: Map<Seq<char>, Vault>, id: Seq<char>) -> Option<Option<u64>> {
    match entry(m, id) {
        Some(v) => Some(v.ttl_remaining),
        None => None,
    }
}

/// Retrieve the TTL-remaining value for a vault, consulting the cache first.
///
/// Returns `None` if the vault does not exist in the store, `Some(None)` if
/// it has no TTL.
pub fn get_ttl_remaining_cached<
    E: Fn(&Option<u64>) -> Vec<u8>,
    D: Fn(&Vec<u8>) -> Option<Option<u64>>,
>(
    store: &VaultStore,
    cache: &mut VaultCache,
    vault_id: &str,
    encode: E,
    decode: D,
) -> (r: Option<Option<u64>>)
    requires
        forall|v: Option<u64>| #[trigger] encode.requires((&v,)),
        forall|b: Vec<u8>| #[trigger] decode.requires((&b,)),
    ensures
        exists|now: Instant| #[trigger]
            read_through(
                old(cache)@,
                final(cache)@,
                Slot::TtlRemaining,
                vault_id@,
                stored_ttl(store@, vault_id@),
                encode,
                decode,
                now,
                r,
            ),
{
    let fresh = match store.get(vault_id) {
        Some(v) => Some(v.ttl_remaining),
        None => None,
    };
    let now = cache.now();
    read_through_at(cache, Slot::TtlRemaining, vault_id, fresh, encode, decode, now)
}

/// Retrieve the summary of a vault, consulting the cache first.
///
/// Returns `None` if the vault does not exist in the store.
pub fn get_vault_summary_cached<
    E: Fn(&VaultSummary) -> Vec<u8>,
    D: Fn(&Vec<u8>) -> Option<VaultSummary>,
>(
    store: &VaultStore,
    cache: &mut VaultCache,
    vault_id: &str,
    encode: E,
    decode: D,
) -> (r: Option<VaultSummary>)
    requires
        forall|v: VaultSummary| #[trigger] encode.requires((&v,)),
        forall|b: Vec<u8>| #[trigger] decode.requires((&b,)),
    ensures
        exists|now: Instant, fresh: Option<VaultSummary>| #[trigger]
            read_through(
                old(cache)@,
                final(cache)@,
                Slot::Summary,
                vault_id@,
                fresh,
                encode,
                decode,
                now,
                r,
            ) && match fresh {
                Some(s) => store@.contains_key(vault_id@) && s.summarises(store@[vault_id@]),
                None => !store@.contains_key(vault_id@),
            },
{
    let fresh = match store.get(vault_id) {
        Some(v) => Some(VaultSummary::of(v)),
        None => None,
    };
    let now = cache.now();
    read_through_at(cache, Slot::Summary, vault_id, fresh, encode, decode, now)
}

/// Invalidate all cached entries for `vault_id`. Must be called whenever a
/// check-in or state-change event modifies vault state.
pub fn invalidate_vault_cache(cache: &mut VaultCache, vault_id: &str)
    ensures
        final(cache)@ == old(cache)@.invalidated(vault_id@),
{
    cache.invalidate(vault_id);
}

/// The word for a status in the database.
pub open spec fn status_word(status: VaultStatus) -> Seq<char> {
    match status {
        VaultStatus::Active => "active"@,
        VaultStatus::Expired => "expired"@,
        VaultStatus::Released => "released"@,
        VaultStatus::Paused => "paused"@,
    }
}

/// The word for a status in the database.
pub fn vault_status_to_str(status: &VaultStatus) -> (r: &'static str)
    ensures
        r@ == status_word(*status),
{
    match status {
        VaultStatus::Active => "active",
        VaultStatus::Expired => "expired",
        VaultStatus::Released => "released",
        VaultStatus::Paused => "paused",
    }
}

/// The status that a word of the database stands for; an unknown word stands
/// for an active vault.
pub open spec fn word_status(s: Seq<char>) -> VaultStatus {
    if s == "expired"@ {
        VaultStatus::Expired
    } else if s == "released"@ {
        VaultStatus::Released
    } else if s == "paused"@ {
        VaultStatus::Paused
    } else {
        VaultStatus::Active
    }
}

/// The status that a word of the database stands for.
pub fn vault_status_from_str(s: &str) -> (r: VaultStatus)
    ensures
        r == word_status(s@),
{
    if str_eq(s, "expired") {
        VaultStatus::Expired
    } else if str_eq(s, "released") {
        VaultStatus::Released
    } else if str_eq(s, "paused") {
        VaultStatus::Paused
    } else {
        VaultStatus::Active
    }
}

/// A status survives being written to the database and read back.
pub proof fn law_status_round_trip(status: VaultStatus)
    ensures
        word_status(status_word(status)) == status,
{
    reveal_strlit("active");
    reveal_strlit("expired");
    reveal_strlit("released");
    reveal_strlit("paused");
    assert("active"@[0] == 'a' && "expired"@[0] == 'e' && "released"@[0] == 'r' && "paused"@[0]
        == 'p');
}

/// Limits of the connection pool.
#[derive(Debug, Clone, Copy, PartialEq, Eq, Structural)]
pub struct PoolConfig {
    pub min: u32,
    pub max: u32,
    pub timeout_secs: u32,
}

impl Default for PoolConfig {
    fn default() -> (r: Self)
        ensures
            r == (PoolConfig { min: 2, max: 10, timeout_secs: 30 }),
    {
        PoolConfig { min: 2, max: 10, timeout_secs: 30 }
    }
}

/// The 32-bit number that the variable `key` sets, or `default`.
pub open spec fn setting_u32(vars: Map<Seq<char>, String>, key: Seq<char>, default: u32) -> u32 {
    if vars.contains_key(key) {
        match text::unsigned_value(vars[key]@) {
            Some(v) => if v <= u32::MAX {
                v as u32
            } else {
                default
            },
            None => default,
        }
    } else {
        default
    }
}

/// The 32-bit number that the variable `key` sets, or `default`.
fn env_u32(vars: &StrMap<String>, key: &str, default: u32) -> (r: u32)
    ensures
        r == setting_u32(vars@, key@, default),
{
    match vars.get(key) {
        Some(v) => match parse_unsigned(v.as_str(), u32::MAX as u64) {
            Some(n) => n as u32,
            None => default,
        },
        None => default,
    }
}

impl PoolConfig {
    /// The limits set by environment variables, each falling back to its
    /// default.
    pub fn from_env(vars: &StrMap<String>) -> (r: Self)
        ensures
            r.min == setting_u32(vars@, "DB_POOL_MIN"@, 2),
            r.max == setting_u32(vars@, "DB_POOL_MAX"@, 10),
            r.timeout_secs == setting_u32(vars@, "DB_POOL_TIMEOUT_SECS"@, 30),
    {
        PoolConfig {
            min: env_u32(vars, "DB_POOL_MIN", 2),
            max: env_u32(vars, "DB_POOL_MAX", 10),
            timeout_secs: env_u32(vars, "DB_POOL_TIMEOUT_SECS", 30),
        }
    }
}

/// What is stored under a key is read back, and other keys are left alone.
pub proof fn law_store_then_get<V>(m: Map<Seq<char>, V>, key: Seq<char>, v: V, other: Seq<char>)
    ensures
        entry(m.insert(key, v), key) == Some(v),
        other != key ==> entry(m.insert(key, v), other) == entry(m, other),
{
}

/// The pages of a search do not overlap and together hold every match: page
/// `p + 1` begins where page `p` ends.
pub proof fn law_pages_partition_matches<T>(s: Seq<T>, limit: int, p: int)
    requires
        limit >= 0,
        p >= 0,
    ensures
        window(s, 0, p * limit) + window(s, p * limit, limit) == window(s, 0, (p + 1) * limit),
{
    assert(p * limit >= 0) by (nonlinear_arith)
        requires
            limit >= 0,
            p >= 0,
    ;
    assert((p + 1) * limit == p * limit + limit) by (nonlinear_arith);
    let a = window(s, 0, p * limit);
    let b = window(s, p * limit, limit);
    let c = window(s, 0, p * limit + limit);
    assert(a + b =~= c);
}

/// A search finds every stored vault that meets each criterion that is given,
/// as often as it is stored, and no other: the owner and the beneficiary are the
/// ones asked for, the status is the one asked for, and the vault was created no
/// earlier and no later than asked for.
pub proof fn law_search_meets_every_criterion(store: VaultStore, q: SearchQuery, v: Vault)
    ensures
        found(store, q).to_multiset().count(v) == if {
            &&& q.owner is Some ==> v.owner@ == q.owner->0@
            &&& q.beneficiary is Some ==> v.beneficiary@ == q.beneficiary->0@
            &&& q.status is Some ==> v.status == q.status->0
            &&& q.created_after is Some ==> v.created_at.secs > q.created_after->0.secs || (
            v.created_at.secs == q.created_after->0.secs && v.created_at.nanos
                >= q.created_after->0.nanos)
            &&& q.created_before is Some ==> v.created_at.secs < q.created_before->0.secs || (
            v.created_at.secs == q.created_before->0.secs && v.created_at.nanos
                <= q.created_before->0.nanos)
        } {
            store.contents().to_multiset().count(v)
        } else {
            0
        },
{
    sequences::lemma_filter_counts(store.contents(), |x: Vault| matches(x, q), v);
}

/// A search without criteria finds every vault, and one more criterion never
/// finds more.
pub proof fn law_criteria_only_narrow(store: VaultStore, q: SearchQuery, v: Vault)
    ensures
        q.owner is None && q.beneficiary is None && q.status is None && q.created_after is None
            && q.created_before is None ==> found(store, q).to_multiset().count(v)
            == store.contents().to_multiset().count(v),
        found(store, q).to_multiset().count(v) <= found(
            store,
            (SearchQuery { owner: None, ..q }),
        ).to_multiset().count(v),
        found(store, q).to_multiset().count(v) <= found(
            store,
            (SearchQuery { beneficiary: None, ..q }),
        ).to_multiset().count(v),
        found(store, q).to_multiset().count(v) <= found(
            store,
            (SearchQuery { status: None, ..q }),
        ).to_multiset().count(v),
        found(store, q).to_multiset().count(v) <= found(
            store,
            (SearchQuery { created_after: None, ..q }),
        ).to_multiset().count(v),
        found(store, q).to_multiset().count(v) <= found(
            store,
            (SearchQuery { created_before: None, ..q }),
        ).to_multiset().count(v),
{
    law_search_meets_every_criterion(store, q, v);
    law_search_meets_every_criterion(store, (SearchQuery { owner: None, ..q }), v);
    law_search_meets_every_criterion(store, (SearchQuery { beneficiary: None, ..q }), v);
    law_search_meets_every_criterion(store, (SearchQuery { status: None, ..q }), v);
    law_search_meets_every_criterion(store, (SearchQuery { created_after: None, ..q }), v);
    law_search_meets_every_criterion(store, (SearchQuery { created_before: None, ..q }), v);
}

/// A page holds the items from its offset on, up to its size, in their order.
pub proof fn law_page_holds_its_items<T>(s: Seq<T>, offset: int, n: int, i: int)
    requires
        offset >= 0,
        n >= 0,
    ensures
        offset >= s.len() ==> window(s, offset, n).len() == 0,
        offset < s.len() && offset + n >= s.len() ==> window(s, offset, n).len() == s.len() - offset,
        offset + n <= s.len() ==> window(s, offset, n).len() == n,
        0 <= i < n && offset + i < s.len() ==> window(s, offset, n)[i] == s[offset + i],
{
}

/// One more vault adds one to the count of its own status and to no other, its
/// own check-in interval to the sum, and one to the count of the day on which it
/// was created; it adds to the releases of that day exactly if it has been released.
pub proof fn law_figures_count_every_vault(
    vaults: Seq<Vault>,
    v: Vault,
    status: VaultStatus,
    day: Seq<char>,
)
    ensures
        count_status(Seq::<Vault>::empty(), status) == 0,
        count_status(vaults.push(v), status) == count_status(vaults, status) + if v.status
            == status {
            1nat
        } else {
            0nat
        },
        interval_sum(Seq::<Vault>::empty()) == 0,
        interval_sum(vaults.push(v)) == interval_sum(vaults) + v.check_in_interval,
        created_on(Seq::<Vault>::empty(), day) == 0,
        created_on(vaults.push(v), day) == created_on(vaults, day) + if v.created_at.day() == day {
            1nat
        } else {
            0nat
        },
        released_on(Seq::<Vault>::empty(), day) == 0,
        released_on(vaults.push(v), day) == released_on(vaults, day) + if v.created_at.day() == day
            && v.status == VaultStatus::Released {
            1nat
        } else {
            0nat
        },
{
    assert(vaults.push(v).drop_last() =~= vaults);
}

/// The statuses partition the vaults: their four counts add up to the number of
/// vaults.
pub proof fn law_statuses_partition_the_vaults(vaults: Seq<Vault>)
    ensures
        count_status(vaults, VaultStatus::Active) + count_status(vaults, VaultStatus::Expired)
            + count_status(vaults, VaultStatus::Released) + count_status(
            vaults,
            VaultStatus::Paused,
        ) == vaults.len(),
    decreases vaults.len(),
{
    if vaults.len() > 0 {
        law_statuses_partition_the_vaults(vaults.drop_last());
    }
}

/// The words of the four statuses; any other word is read as active.
pub proof fn law_status_words(s: Seq<char>)
    ensures
        status_word(VaultStatus::Active) == "active"@,
        status_word(VaultStatus::Expired) == "expired"@,
        status_word(VaultStatus::Released) == "released"@,
        status_word(VaultStatus::Paused) == "paused"@,
        word_status(s) == VaultStatus::Expired ==> s == "expired"@,
        word_status(s) == VaultStatus::Released ==> s == "released"@,
        word_status(s) == VaultStatus::Paused ==> s == "paused"@,
        s != "expired"@ && s != "released"@ && s != "paused"@ ==> word_status(s)
            == VaultStatus::Active,
{
}

/// What a read through the cache returns is what the cache holds, decoded, or
/// what the store holds. Where the cache holds nothing readable it is what the
/// store holds, and a value of the store can be read from the cache afterwards.
pub proof fn law_read_through_agrees_with_the_store<
    T,
    E: Fn(&T) -> Vec<u8>,
    D: Fn(&Vec<u8>) -> Option<T>,
>(
    before: cache::CacheModel,
    after: cache::CacheModel,
    slot: Slot,
    id: Seq<char>,
    fresh: Option<T>,
    encode: E,
    decode: D,
    now: Instant,
    r: Option<T>,
)
    requires
        read_through(before, after, slot, id, fresh, encode, decode, now, r),
        before.config.max_entries > 0,
        before.config.ttl.nanos > 0,
        cache::stale_age(before.config.ttl, before.config.staleness_ratio) > 0,
    ensures
        before.read(slot, id, now) is None ==> r == fresh,
        before.read(slot, id, now) is None && fresh is Some ==> exists|b: Vec<u8>| #[trigger]
            encode.ensures((&fresh->0,), b) && after.read(slot, id, now) == Some(b@),
        r != fresh ==> exists|b: Vec<u8>| #[trigger]
            decode.ensures((&b,), r) && before.read(slot, id, now) == Some(b@),
        fresh is None && before.read(slot, id, now) is None ==> after.read(slot, id, now) is None,
{
    let read = before.after_read(slot, id, now);
    if before.read(slot, id, now) is None && fresh is Some {
        let b = choose|b: Vec<u8>| #[trigger]
            encode.ensures((&fresh->0,), b) && read.after_write(after, slot, id, b@, now);
        cache::law_write_then_read(read, after, slot, id, b@, now, now);
        assert(after.read(slot, id, now) == Some(b@));
    }
}

/// The chart of the vaults has one point for each day on which one was created, in
/// the order of the days, with the numbers of that day.
pub proof fn law_chart_has_every_day(
    series: Seq<TimeSeriesPoint>,
    vaults: Seq<Vault>,
    i: int,
    j: int,
)
    requires
        charts(series, vaults),
    ensures
        0 <= i < j < series.len() ==> text::before(series[i].date@, series[j].date@),
        0 <= i < series.len() ==> series[i].vaults_created > 0 && series[i].vaults_released
            <= series[i].vaults_created && series[i].vaults_created == created_on(
            vaults,
            series[i].date@,
        ),
        0 <= j < vaults.len() ==> exists|k: int|
            0 <= k < series.len() && (#[trigger] series[k]).date@ == vaults[j].created_at.day(),
{
    if 0 <= i < series.len() {
        lemma_day_counts(vaults, series[i].date@);
    }
    if 0 <= j < vaults.len() {
        lemma_created_on_its_day(vaults, j);
        assert(created_on(vaults, vaults[j].created_at.day()) > 0);
    }
}

/// A vault is counted on the day on which it was created.
proof fn lemma_created_on_its_day(vaults: Seq<Vault>, j: int)
    requires
        0 <= j < vaults.len(),
    ensures
        created_on(vaults, vaults[j].created_at.day()) > 0,
    decreases vaults.len(),
{
    if j < vaults.len() - 1 {
        lemma_created_on_its_day(vaults.drop_last(), j);
    }
}

/// The first page of ten is shown where nothing else is asked for.
pub proof fn law_first_page_by_default(q: SearchQuery)
    ensures
        q.page is None ==> page_of(q) == 1,
        q.page is Some ==> page_of(q) == q.page->0,
        q.limit is None ==> limit_of(q) == 10,
        q.limit is Some ==> limit_of(q) == q.limit->0,
        q.page is None ==> page_in_range(q),
        q.page == Some(0u32) ==> !page_in_range(q),
{
}

/// The remaining time of a vault is that of the stored one.
pub proof fn law_remaining_time_is_the_stored_one(m: Map<Seq<char>, Vault>, id: Seq<char>)
    ensures
        m.contains_key(id) ==> stored_ttl(m, id) == Some(m[id].ttl_remaining),
        !m.contains_key(id) ==> stored_ttl(m, id) is None,
{
}

/// A variable that holds a number of 32 bits sets a limit, and nothing else does.
pub proof fn law_limit_setting(vars: Map<Seq<char>, String>, key: Seq<char>, default: u32, n: nat)
    ensures
        !vars.contains_key(key) ==> setting_u32(vars, key, default) == default,
        vars.contains_key(key) && text::unsigned_value(vars[key]@) == Some(n) && n <= u32::MAX
            ==> setting_u32(vars, key, default) == n,
        vars.contains_key(key) && text::unsigned_value(vars[key]@) == Some(n) && n > u32::MAX
            ==> setting_u32(vars, key, default) == default,
        vars.contains_key(key) && text::unsigned_value(vars[key]@) is None ==> setting_u32(
            vars,
            key,
            default,
        ) == default,
{
}

/// A page can be asked for if it is counted from one and its first vault has a
/// number of 32 bits.
pub proof fn law_pages_that_can_be_asked_for(q: SearchQuery, page: u32, limit: u32)
    requires
        q.page == Some(page),
        q.limit == Some(limit),
    ensures
        page_in_range(q) <==> page >= 1 && (page - 1) * limit <= 0xffff_ffff,
{
}

} // verus!
