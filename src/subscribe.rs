//! Registries of live subscriptions: to single records and to whole tables.
//! The preupdate hook is installed while any subscription exists; the
//! registry tells its owner when to install and when to remove it.

use crate::records::{project, visible, SqlValue, UserPrincipal};
use crate::sql::SqlValueView;
use crate::text::str_eq;
use vstd::prelude::*;

verus! {

/// Kind of row change reported by the preupdate hook.
#[derive(Debug, Copy, Clone, PartialEq, Eq, Structural)]
pub enum RecordAction {
    Delete,
    Insert,
    Update,
}

/// A subscriber and the channel its events go to.
pub struct Subscription<C> {
    /// Unique id of the subscription.
    pub subscription_id: i64,
    /// Name of the API subscribed to, looked up afresh on every event.
    pub record_api_name: String,
    pub user: Option<UserPrincipal>,
    pub channel: C,
}

/// One registration: a subscriber of record `rowid` of `table`, or of the
/// whole table when `rowid` is `None`.
pub struct Registration<C> {
    pub table: String,
    pub rowid: Option<i64>,
    pub sub: Subscription<C>,
}

/// What became of one attempt to hand an event to a subscriber.
#[derive(Debug, Copy, Clone, PartialEq, Eq, Structural)]
pub enum Delivery {
    Sent,
    /// The channel was full; the event was dropped and the subscriber kept.
    Full,
    /// The receiving side is gone.
    Closed,
    /// The API no longer exists in the configuration.
    ApiGone,
    /// The access rule no longer admits the subscriber.
    AccessDenied,
}

/// A delivery outcome after which the subscriber is removed.
pub open spec fn is_dead(d: Delivery) -> bool {
    d is Closed || d is ApiGone || d is AccessDenied
}

/// Subscribers under `table` and `rowid` (`None`: the whole table), in order
/// of registration.
pub open spec fn subscribers_of<C>(es: Seq<Registration<C>>, t: Seq<char>, rowid: Option<i64>) -> Seq<Subscription<C>>
    decreases es.len(),
{
    if es.len() == 0 {
        seq![]
    } else {
        let rest = subscribers_of(es.drop_last(), t, rowid);
        if es.last().table@ == t && es.last().rowid == rowid {
            rest.push(es.last().sub)
        } else {
            rest
        }
    }
}

/// A registration that a removal takes out: of `table`, of `rowid` unless
/// `any_rowid`, and either all of them or those whose id is in `dead`.
pub open spec fn doomed<C>(e: Registration<C>, t: Seq<char>, rowid: Option<i64>, any_rowid: bool, dead: Seq<i64>, all: bool) -> bool {
    e.table@ == t && (any_rowid || e.rowid == rowid) && (all || dead.contains(e.sub.subscription_id))
}

/// The registrations that a removal keeps, in order.
pub open spec fn kept<C>(es: Seq<Registration<C>>, t: Seq<char>, rowid: Option<i64>, any_rowid: bool, dead: Seq<i64>, all: bool) -> Seq<
    Registration<C>,
>
    decreases es.len(),
{
    if es.len() == 0 {
        seq![]
    } else {
        (if doomed(es[0], t, rowid, any_rowid, dead, all) {
            seq![]
        } else {
            seq![es[0]]
        }) + kept(es.drop_first(), t, rowid, any_rowid, dead, all)
    }
}

/// Record and table subscriptions, with whether the hook is installed. Each
/// registration stands on its own, so no list is ever left empty.
pub struct SubscriptionRegistry<C> {
    entries: Vec<Registration<C>>,
    hook_installed: bool,
}

impl<C> SubscriptionRegistry<C> {
    pub closed spec fn entries_view(&self) -> Seq<Registration<C>> {
        self.entries@
    }

    /// Whether the preupdate hook is installed.
    pub closed spec fn hooked(&self) -> bool {
        self.hook_installed
    }

    /// The hook is installed exactly while some subscription exists.
    pub open spec fn wf(&self) -> bool {
        self.hooked() == (self.entries_view().len() > 0)
    }

    /// The registry holds no subscription.
    pub open spec fn is_empty(&self) -> bool {
        self.entries_view().len() == 0
    }

    /// Subscribers of record `rowid` of table `t`.
    pub open spec fn record_subscribers(&self, t: Seq<char>, rowid: i64) -> Seq<Subscription<C>> {
        subscribers_of(self.entries_view(), t, Some(rowid))
    }

    /// Subscribers of the whole table `t`.
    pub open spec fn table_subscribers(&self, t: Seq<char>) -> Seq<Subscription<C>> {
        subscribers_of(self.entries_view(), t, None)
    }

    /// An empty registry; the hook is not installed.
    pub fn new() -> (r: Self)
        ensures
            r.wf(),
            r.is_empty(),
            !r.hooked(),
    {
        SubscriptionRegistry { entries: Vec::new(), hook_installed: false }
    }

    /// Whether the hook is installed.
    pub fn hook_installed(&self) -> (r: bool)
        ensures
            r == self.hooked(),
    {
        self.hook_installed
    }

    /// Number of registrations.
    pub fn len(&self) -> (r: usize)
        ensures
            r == self.entries_view().len(),
    {
        self.entries.len()
    }

    /// The `i`-th registration.
    pub fn registration(&self, i: usize) -> (r: &Registration<C>)
        requires
            i < self.entries_view().len(),
        ensures
            *r == self.entries_view()[i as int],
    {
        &self.entries[i]
    }

    /// Whether a change of record `rowid` in `table` concerns any subscriber;
    /// false on an empty registry, so a hook that fires after the registry
    /// emptied drops the event.
    pub fn wants_event(&self, table: &str, rowid: i64) -> (r: bool)
        ensures
            r == (self.record_subscribers(table@, rowid).len() > 0 || self.table_subscribers(table@).len() > 0),
            self.is_empty() ==> !r,
    {
        let mut i: usize = 0;
        while i < self.entries.len()
            invariant
                i <= self.entries@.len(),
                subscribers_of(self.entries@.subrange(0, i as int), table@, Some(rowid)).len() == 0,
                subscribers_of(self.entries@.subrange(0, i as int), table@, None).len() == 0,
            decreases self.entries@.len() - i,
        {
            let e = &self.entries[i];
            let ghost pre = self.entries@.subrange(0, i as int + 1);
            assert(pre.drop_last() =~= self.entries@.subrange(0, i as int));
            let hit = str_eq(e.table.as_str(), table) && match e.rowid {
                None => true,
                Some(r) => r == rowid,
            };
            if hit {
                proof {
                    lemma_subscribers_grow(self.entries@, table@, e.rowid, i as int + 1);
                }
                return true;
            }
            i = i + 1;
        }
        assert(self.entries@.subrange(0, self.entries@.len() as int) =~= self.entries@);
        false
    }

    /// Registers `sub` for record `rowid` of `table`. Returns whether the hook
    /// must now be installed: exactly when the registry was empty.
    pub fn add_record_subscription(&mut self, table: String, rowid: i64, sub: Subscription<C>) -> (install: bool)
        requires
            old(self).wf(),
        ensures
            final(self).wf(),
            install == old(self).is_empty(),
            final(self).hooked(),
            final(self).entries_view() == old(self).entries_view().push(
                Registration { table: table, rowid: Some(rowid), sub: sub },
            ),
            final(self).record_subscribers(table@, rowid) == old(self).record_subscribers(table@, rowid).push(sub),
    {
        let install = self.entries.len() == 0;
        let ghost before = self.entries@;
        self.entries.push(Registration { table, rowid: Some(rowid), sub });
        assert(self.entries@.drop_last() =~= before);
        self.hook_installed = true;
        install
    }

    /// Registers `sub` for every record of `table`. Returns whether the hook
    /// must now be installed: exactly when the registry was empty.
    pub fn add_table_subscription(&mut self, table: String, sub: Subscription<C>) -> (install: bool)
        requires
            old(self).wf(),
        ensures
            final(self).wf(),
            install == old(self).is_empty(),
            final(self).hooked(),
            final(self).entries_view() == old(self).entries_view().push(
                Registration { table: table, rowid: None, sub: sub },
            ),
            final(self).table_subscribers(table@) == old(self).table_subscribers(table@).push(sub),
    {
        let install = self.entries.len() == 0;
        let ghost before = self.entries@;
        self.entries.push(Registration { table, rowid: None, sub });
        assert(self.entries@.drop_last() =~= before);
        self.hook_installed = true;
        install
    }

    /// Takes out the registrations that `doomed` selects; returns whether the
    /// hook must now be removed: exactly when this emptied the registry.
    fn cull(&mut self, table: &str, rowid: Option<i64>, any_rowid: bool, dead: &Vec<i64>, all: bool) -> (uninstall: bool)
        requires
            old(self).wf(),
        ensures
            final(self).wf(),
            final(self).entries_view() == kept(old(self).entries_view(), table@, rowid, any_rowid, dead@, all),
            uninstall == (!old(self).is_empty() && final(self).is_empty()),
    {
        let mut rest: Vec<Registration<C>> = Vec::new();
        core::mem::swap(&mut self.entries, &mut rest);
        let ghost orig = rest@;
        assert(self.entries@.len() == 0);
        while rest.len() > 0
            invariant
                kept(orig, table@, rowid, any_rowid, dead@, all) == self.entries@ + kept(rest@, table@, rowid, any_rowid, dead@, all),
                orig == old(self).entries@,
                self.hook_installed == old(self).hook_installed,
            decreases rest@.len(),
        {
            let ghost before_rest = rest@;
            let ghost before_out = self.entries@;
            let e = rest.remove(0);
            assert(before_rest.drop_first() =~= rest@);
            let mut doomed_here = false;
            if e.rowid == rowid || any_rowid {
                if str_eq(e.table.as_str(), table) {
                    if all {
                        doomed_here = true;
                    } else {
                        let mut j: usize = 0;
                        while j < dead.len()
                            invariant
                                j <= dead@.len(),
                                !doomed_here ==> forall|k: int| 0 <= k < j ==> dead@[k] != e.sub.subscription_id,
                                doomed_here ==> dead@.contains(e.sub.subscription_id),
                            decreases dead@.len() - j,
                        {
                            if dead[j] == e.sub.subscription_id {
                                doomed_here = true;
                            }
                            j = j + 1;
                        }
                    }
                }
            }
            assert(doomed_here == doomed(e, table@, rowid, any_rowid, dead@, all));
            if !doomed_here {
                self.entries.push(e);
                assert(self.entries@ =~= before_out + seq![e]);
            } else {
                assert(self.entries@ =~= before_out + Seq::<Registration<C>>::empty());
            }
            assert(self.entries@ + kept(rest@, table@, rowid, any_rowid, dead@, all) =~= before_out + kept(before_rest, table@, rowid, any_rowid, dead@, all));
        }
        assert(kept(rest@, table@, rowid, any_rowid, dead@, all) =~= Seq::<Registration<C>>::empty());
        assert(self.entries@ =~= kept(orig, table@, rowid, any_rowid, dead@, all));
        proof {
            if orig.len() == 0 {
                assert(kept(orig, table@, rowid, any_rowid, dead@, all).len() == 0);
            }
        }
        let uninstall = self.hook_installed && self.entries.len() == 0;
        if self.entries.len() == 0 {
            self.hook_installed = false;
        }
        uninstall
    }

    /// Removes subscription `subscription_id` of record `rowid` of `table`,
    /// as when its SSE response is dropped. Returns whether the hook must now
    /// be removed.
    pub fn remove_record_subscription(&mut self, table: &str, rowid: i64, subscription_id: i64) -> (uninstall: bool)
        requires
            old(self).wf(),
        ensures
            final(self).wf(),
            final(self).entries_view() == kept(old(self).entries_view(), table@, Some(rowid), false, seq![subscription_id], false),
            uninstall == (!old(self).is_empty() && final(self).is_empty()),
    {
        let dead = vec![subscription_id];
        assert(dead@ =~= seq![subscription_id]);
        self.cull(table, Some(rowid), false, &dead, false)
    }

    /// Drops the subscribers of record `rowid` of `table` found dead while
    /// delivering an event; after a DELETE of the record, drops them all.
    /// Returns whether the hook must now be removed.
    pub fn reap_record(&mut self, table: &str, rowid: i64, dead: &Vec<i64>, action: RecordAction) -> (uninstall: bool)
        requires
            old(self).wf(),
        ensures
            final(self).wf(),
            final(self).entries_view() == kept(old(self).entries_view(), table@, Some(rowid), false, dead@, action is Delete),
            uninstall == (!old(self).is_empty() && final(self).is_empty()),
    {
        self.cull(table, Some(rowid), false, dead, action == RecordAction::Delete)
    }

    /// Drops the table subscribers of `table` found dead while delivering an
    /// event. Returns whether the hook must now be removed.
    pub fn reap_table(&mut self, table: &str, dead: &Vec<i64>) -> (uninstall: bool)
        requires
            old(self).wf(),
        ensures
            final(self).wf(),
            final(self).entries_view() == kept(old(self).entries_view(), table@, None, false, dead@, false),
            uninstall == (!old(self).is_empty() && final(self).is_empty()),
    {
        self.cull(table, None, false, dead, false)
    }

    /// Drops every subscription to `table`, as when its schema is gone.
    /// Returns whether the hook must now be removed.
    pub fn purge_table(&mut self, table: &str) -> (uninstall: bool)
        requires
            old(self).wf(),
        ensures
            final(self).wf(),
            final(self).entries_view() == kept(old(self).entries_view(), table@, None, true, seq![], true),
            uninstall == (!old(self).is_empty() && final(self).is_empty()),
    {
        let dead: Vec<i64> = Vec::new();
        assert(dead@ =~= Seq::<i64>::empty());
        self.cull(table, None, true, &dead, true)
    }

    /// Positions of the registrations under `table` and `rowid` (`None`: the
    /// table subscribers), in order.
    pub fn targets(&self, table: &str, rowid: Option<i64>) -> (r: Vec<usize>)
        ensures
            r@.len() == subscribers_of(self.entries_view(), table@, rowid).len(),
            forall|k: int| 0 <= k < r@.len() ==> #[trigger] r@[k] < self.entries_view().len()
                && self.entries_view()[r@[k] as int].sub == subscribers_of(self.entries_view(), table@, rowid)[k],
    {
        let mut out: Vec<usize> = Vec::new();
        let mut i: usize = 0;
        while i < self.entries.len()
            invariant
                i <= self.entries@.len(),
                out@.len() == subscribers_of(self.entries@.subrange(0, i as int), table@, rowid).len(),
                forall|k: int| 0 <= k < out@.len() ==> #[trigger] out@[k] < i
                    && self.entries@[out@[k] as int].sub == subscribers_of(self.entries@.subrange(0, i as int), table@, rowid)[k],
            decreases self.entries@.len() - i,
        {
            let e = &self.entries[i];
            let ghost pre = self.entries@.subrange(0, i as int + 1);
            assert(pre.drop_last() =~= self.entries@.subrange(0, i as int));
            assert(pre.last() == self.entries@[i as int]);
            let same_row = match (e.rowid, rowid) {
                (None, None) => true,
                (Some(a), Some(b)) => a == b,
                _ => false,
            };
            if same_row && str_eq(e.table.as_str(), table) {
                out.push(i);
            }
            i = i + 1;
        }
        assert(self.entries@.subrange(0, self.entries@.len() as int) =~= self.entries@);
        out
    }

    /// Number of record subscriptions, saturating at `usize::MAX`.
    pub fn num_record_subscriptions(&self) -> (r: usize)
        ensures
            r == (if record_count(self.entries_view()) > usize::MAX { usize::MAX as int } else { record_count(self.entries_view()) }),
    {
        let mut n: usize = 0;
        let mut i: usize = 0;
        while i < self.entries.len()
            invariant
                i <= self.entries@.len(),
                n == (if record_count(self.entries@.subrange(0, i as int)) > usize::MAX { usize::MAX as int } else {
                    record_count(self.entries@.subrange(0, i as int))
                }),
            decreases self.entries@.len() - i,
        {
            let ghost pre = self.entries@.subrange(0, i as int + 1);
            assert(pre.drop_last() =~= self.entries@.subrange(0, i as int));
            if self.entries[i].rowid.is_some() && n < usize::MAX {
                n = n + 1;
            }
            i = i + 1;
        }
        assert(self.entries@.subrange(0, self.entries@.len() as int) =~= self.entries@);
        n
    }
}

/// Number of record registrations.
pub open spec fn record_count<C>(es: Seq<Registration<C>>) -> int
    decreases es.len(),
{
    if es.len() == 0 {
        0
    } else {
        record_count(es.drop_last()) + if es.last().rowid is Some {
            1int
        } else {
            0int
        }
    }
}

/// Ids of the subscribers whose delivery showed them dead: closed channels,
/// APIs gone, access revoked. A full channel keeps its subscriber.
pub fn dead_subscriptions(outcomes: &Vec<(i64, Delivery)>) -> (r: Vec<i64>)
    ensures
        forall|id: i64| r@.contains(id) <==> exists|k: int| 0 <= k < outcomes@.len() && outcomes@[k].0 == id && is_dead(
            #[trigger] outcomes@[k].1,
        ),
{
    let mut out: Vec<i64> = Vec::new();
    let mut i: usize = 0;
    while i < outcomes.len()
        invariant
            i <= outcomes@.len(),
            forall|id: i64| out@.contains(id) <==> exists|k: int| 0 <= k < i && outcomes@[k].0 == id && is_dead(
                #[trigger] outcomes@[k].1,
            ),
        decreases outcomes@.len() - i,
    {
        let (id, d) = outcomes[i];
        let ghost before = out@;
        if d == Delivery::Closed || d == Delivery::ApiGone || d == Delivery::AccessDenied {
            out.push(id);
        }
        proof {
            assert forall|x: i64| out@.contains(x) <==> exists|k: int| 0 <= k < i + 1 && outcomes@[k].0 == x && is_dead(
                #[trigger] outcomes@[k].1,
            ) by {
                let dead_here = is_dead(outcomes@[i as int].1);
                assert(out@.contains(x) <==> (before.contains(x) || (dead_here && x == id))) by {
                    if dead_here {
                        assert(out@ == before.push(id));
                        if out@.contains(x) {
                            let m = choose|m: int| 0 <= m < out@.len() && out@[m] == x;
                            if m < before.len() {
                                assert(before[m] == x);
                            }
                        }
                        if before.contains(x) {
                            let m = choose|m: int| 0 <= m < before.len() && before[m] == x;
                            assert(out@[m] == x);
                        }
                        if x == id {
                            assert(out@[before.len() as int] == x);
                        }
                    } else {
                        assert(out@ == before);
                    }
                }
                if exists|k: int| 0 <= k < i + 1 && outcomes@[k].0 == x && is_dead(#[trigger] outcomes@[k].1) {
                    let k = choose|k: int| 0 <= k < i + 1 && outcomes@[k].0 == x && is_dead(#[trigger] outcomes@[k].1);
                    if k < i {
                        assert(before.contains(x));
                    }
                }
                if before.contains(x) {
                    let k = choose|k: int| 0 <= k < i && outcomes@[k].0 == x && is_dead(#[trigger] outcomes@[k].1);
                    assert(0 <= k < i + 1);
                }
                if dead_here && x == id {
                    assert(outcomes@[i as int].0 == x);
                }
            }
        }
        i = i + 1;
    }
    out
}


/// Subscribers found in a prefix stay found in the whole.
proof fn lemma_subscribers_grow<C>(es: Seq<Registration<C>>, t: Seq<char>, rowid: Option<i64>, n: int)
    requires
        0 <= n <= es.len(),
    ensures
        subscribers_of(es, t, rowid).len() >= subscribers_of(es.subrange(0, n), t, rowid).len(),
    decreases es.len() - n,
{
    if n < es.len() {
        let pre = es.subrange(0, n + 1);
        assert(pre.drop_last() =~= es.subrange(0, n));
        lemma_subscribers_grow(es, t, rowid, n + 1);
    } else {
        assert(es.subrange(0, n) =~= es);
    }
}

/// A removal keeps exactly the registrations it does not select, in order.
pub proof fn lemma_kept<C>(es: Seq<Registration<C>>, t: Seq<char>, rowid: Option<i64>, any_rowid: bool, dead: Seq<i64>, all: bool)
    ensures
        forall|i: int| 0 <= i < kept(es, t, rowid, any_rowid, dead, all).len() ==> es.contains(
            #[trigger] kept(es, t, rowid, any_rowid, dead, all)[i]),
        forall|i: int| 0 <= i < kept(es, t, rowid, any_rowid, dead, all).len() ==> !doomed(
            #[trigger] kept(es, t, rowid, any_rowid, dead, all)[i], t, rowid, any_rowid, dead, all),
        (forall|i: int| 0 <= i < es.len() ==> doomed(#[trigger] es[i], t, rowid, any_rowid, dead, all)) ==> kept(
            es, t, rowid, any_rowid, dead, all).len() == 0,
        (forall|i: int| 0 <= i < es.len() ==> !doomed(#[trigger] es[i], t, rowid, any_rowid, dead, all)) ==> kept(
            es, t, rowid, any_rowid, dead, all) == es,
    decreases es.len(),
{
    if es.len() > 0 {
        let rest = es.drop_first();
        lemma_kept(rest, t, rowid, any_rowid, dead, all);
        assert forall|i: int| 0 <= i < rest.len() implies rest[i] == es[i + 1] by {}
        if forall|i: int| 0 <= i < es.len() ==> !doomed(#[trigger] es[i], t, rowid, any_rowid, dead, all) {
            assert(forall|i: int| 0 <= i < rest.len() ==> !doomed(#[trigger] rest[i], t, rowid, any_rowid, dead, all)) by {
                assert forall|i: int| 0 <= i < rest.len() implies !doomed(#[trigger] rest[i], t, rowid, any_rowid, dead, all) by {
                    assert(rest[i] == es[i + 1]);
                }
            }
            assert(seq![es[0]] + rest =~= es);
        }
        if forall|i: int| 0 <= i < es.len() ==> doomed(#[trigger] es[i], t, rowid, any_rowid, dead, all) {
            assert(forall|i: int| 0 <= i < rest.len() ==> doomed(#[trigger] rest[i], t, rowid, any_rowid, dead, all)) by {
                assert forall|i: int| 0 <= i < rest.len() implies doomed(#[trigger] rest[i], t, rowid, any_rowid, dead, all) by {
                    assert(rest[i] == es[i + 1]);
                }
            }
        }
        let k = kept(es, t, rowid, any_rowid, dead, all);
        let kr = kept(rest, t, rowid, any_rowid, dead, all);
        assert forall|i: int| 0 <= i < k.len() implies !doomed(#[trigger] k[i], t, rowid, any_rowid, dead, all) && es.contains(k[i]) by {
            if !doomed(es[0], t, rowid, any_rowid, dead, all) {
                if i > 0 {
                    assert(k[i] == kr[i - 1]);
                    assert(rest.contains(kr[i - 1]));
                    let m = choose|m: int| 0 <= m < rest.len() && rest[m] == kr[i - 1];
                    assert(es[m + 1] == k[i]);
                } else {
                    assert(es[0] == k[i]);
                }
            } else {
                assert(k[i] == kr[i]);
                assert(rest.contains(kr[i]));
                let m = choose|m: int| 0 <= m < rest.len() && rest[m] == kr[i];
                assert(es[m + 1] == k[i]);
            }
        }
    }
}

/// On an empty registry the hook is off and no change concerns anyone, so a
/// hook that still fires finds nothing and drops the event.
pub proof fn lemma_empty_registry_drops_events<C>(reg: SubscriptionRegistry<C>, t: Seq<char>, rowid: i64)
    requires
        reg.wf(),
        reg.is_empty(),
    ensures
        !reg.hooked(),
        reg.record_subscribers(t, rowid).len() == 0,
        reg.table_subscribers(t).len() == 0,
{
}

/// When every remaining consumer is dropped — each found dead on an event,
/// reaped with its record's deletion, or unsubscribed when its stream closed
/// — the removal empties the registry and calls for the hook's removal; after
/// it no change of any table concerns a subscriber.
pub proof fn lemma_dropping_consumers_removes_hook<C>(
    before: SubscriptionRegistry<C>,
    after: SubscriptionRegistry<C>,
    t: Seq<char>,
    rowid: Option<i64>,
    any_rowid: bool,
    dead: Seq<i64>,
    all: bool,
    uninstall: bool,
    other: Seq<char>,
    other_rowid: i64,
)
    requires
        before.wf(),
        !before.is_empty(),
        forall|i: int| 0 <= i < before.entries_view().len() ==> doomed(
            #[trigger] before.entries_view()[i], t, rowid, any_rowid, dead, all),
        after.wf(),
        after.entries_view() == kept(before.entries_view(), t, rowid, any_rowid, dead, all),
        uninstall == (!before.is_empty() && after.is_empty()),
    ensures
        uninstall,
        !after.hooked(),
        after.record_subscribers(other, other_rowid).len() == 0,
        after.table_subscribers(other).len() == 0,
{
    lemma_kept(before.entries_view(), t, rowid, any_rowid, dead, all);
}

/// SQLite's operation codes of the preupdate hook.
pub const SQLITE_DELETE: i32 = 9;

pub const SQLITE_INSERT: i32 = 18;

pub const SQLITE_UPDATE: i32 = 23;

/// The change an operation code of the preupdate hook reports; `None` for
/// any other code, whose event is dropped.
pub fn action_from_code(code: i32) -> (r: Option<RecordAction>)
    ensures
        r == (if code == SQLITE_DELETE {
            Some(RecordAction::Delete)
        } else if code == SQLITE_INSERT {
            Some(RecordAction::Insert)
        } else if code == SQLITE_UPDATE {
            Some(RecordAction::Update)
        } else {
            None
        }),
{
    if code == SQLITE_DELETE {
        Some(RecordAction::Delete)
    } else if code == SQLITE_INSERT {
        Some(RecordAction::Insert)
    } else if code == SQLITE_UPDATE {
        Some(RecordAction::Update)
    } else {
        None
    }
}

/// An event sent to subscribers: the changed row's visible columns, or an error.
#[derive(Debug)]
pub enum DbEvent {
    Update(Option<Vec<(String, SqlValue)>>),
    Insert(Option<Vec<(String, SqlValue)>>),
    Delete(Option<Vec<(String, SqlValue)>>),
    Error(String),
}

pub open spec fn record_view(fs: Seq<(String, SqlValue)>) -> Seq<(Seq<char>, SqlValueView)> {
    fs.map_values(|f: (String, SqlValue)| (f.0@, f.1@))
}

/// The event for a change of a row whose columns are `names` and whose
/// values (post-image for INSERT and UPDATE, pre-image for DELETE) are
/// `values`: the visible columns paired with their values.
pub fn db_event(action: RecordAction, names: &Vec<String>, values: &Vec<SqlValue>) -> (r: DbEvent)
    requires
        names@.len() == values@.len(),
    ensures
        match (action, r) {
            (RecordAction::Update, DbEvent::Update(Some(fs))) => record_view(fs@) == project(
                names@.map_values(|c: String| c@), values@.map_values(|v: SqlValue| v@), 0),
            (RecordAction::Insert, DbEvent::Insert(Some(fs))) => record_view(fs@) == project(
                names@.map_values(|c: String| c@), values@.map_values(|v: SqlValue| v@), 0),
            (RecordAction::Delete, DbEvent::Delete(Some(fs))) => record_view(fs@) == project(
                names@.map_values(|c: String| c@), values@.map_values(|v: SqlValue| v@), 0),
            _ => false,
        },
{
    let fields = crate::records::project_values(names, values);
    match action {
        RecordAction::Update => DbEvent::Update(Some(fields)),
        RecordAction::Insert => DbEvent::Insert(Some(fields)),
        RecordAction::Delete => DbEvent::Delete(Some(fields)),
    }
}

/// What a subscription path names: the whole table (`*`) or one record id.
#[derive(Debug)]
pub enum SubscriptionTarget {
    Table,
    Record(String),
}

/// Reads the record segment of a subscription path.
pub fn subscription_target(record: &str) -> (r: SubscriptionTarget)
    ensures
        r is Table <==> record@ == "*"@,
        r matches SubscriptionTarget::Record(id) ==> id@ == record@,
{
    if str_eq(record, "*") {
        SubscriptionTarget::Table
    } else {
        SubscriptionTarget::Record(record.to_string())
    }
}

/// The registrations left after the unsubscribe path has removed, one after
/// another, each `(rowid, subscription id)` of `drops` from table `t`.
pub open spec fn after_drops<C>(es: Seq<Registration<C>>, t: Seq<char>, drops: Seq<(i64, i64)>) -> Seq<Registration<C>>
    decreases drops.len(),
{
    if drops.len() == 0 {
        es
    } else {
        kept(after_drops(es, t, drops.drop_last()), t, Some(drops.last().0), false, seq![drops.last().1], false)
    }
}

proof fn lemma_after_drops_removes<C>(es: Seq<Registration<C>>, t: Seq<char>, drops: Seq<(i64, i64)>)
    ensures
        forall|i: int| 0 <= i < after_drops(es, t, drops).len() ==> es.contains(#[trigger] after_drops(es, t, drops)[i]),
        forall|i: int, k: int|
            0 <= i < after_drops(es, t, drops).len() && 0 <= k < drops.len() ==> !(#[trigger] after_drops(es, t, drops)[i].table@ == t
                && after_drops(es, t, drops)[i].rowid == Some(#[trigger] drops[k].0) && after_drops(es, t, drops)[i].sub.subscription_id
                == drops[k].1),
    decreases drops.len(),
{
    if drops.len() > 0 {
        let prev = drops.drop_last();
        lemma_after_drops_removes(es, t, prev);
        let before = after_drops(es, t, prev);
        let d = drops.last();
        lemma_kept(before, t, Some(d.0), false, seq![d.1], false);
        let now = after_drops(es, t, drops);
        assert forall|i: int| 0 <= i < now.len() implies es.contains(#[trigger] now[i]) by {
            assert(before.contains(now[i]));
            let m = choose|m: int| 0 <= m < before.len() && before[m] == now[i];
            assert(es.contains(before[m]));
        }
        assert forall|i: int, k: int| 0 <= i < now.len() && 0 <= k < drops.len() implies !(#[trigger] now[i].table@ == t
            && now[i].rowid == Some(#[trigger] drops[k].0) && now[i].sub.subscription_id == drops[k].1) by {
            assert(!doomed(now[i], t, Some(d.0), false, seq![d.1], false));
            if k < drops.len() - 1 {
                assert(before.contains(now[i]));
                let m = choose|m: int| 0 <= m < before.len() && before[m] == now[i];
                assert(prev[k] == drops[k]);
                assert(!(before[m].table@ == t && before[m].rowid == Some(prev[k].0) && before[m].sub.subscription_id == prev[k].1));
            } else {
                assert(seq![d.1].contains(d.1)) by {
                    assert(seq![d.1][0] == d.1);
                }
            }
        }
    }
}

/// Dropping every consumer of table `t` empties the registry once nothing
/// else was subscribed: when each registration is a record subscription of
/// `t` whose rowid and id the unsubscribe path removes, no registration is
/// left, the hook is to be removed, and a later change of `t` concerns nobody.
pub proof fn lemma_all_consumers_dropped<C>(es: Seq<Registration<C>>, t: Seq<char>, drops: Seq<(i64, i64)>, rowid: i64)
    requires
        forall|i: int| 0 <= i < es.len() ==> (#[trigger] es[i]).table@ == t && es[i].rowid is Some && exists|k: int|
            0 <= k < drops.len() && es[i].rowid == Some(drops[k].0) && es[i].sub.subscription_id == drops[k].1,
    ensures
        after_drops(es, t, drops).len() == 0,
        subscribers_of(after_drops(es, t, drops), t, Some(rowid)).len() == 0,
        subscribers_of(after_drops(es, t, drops), t, None).len() == 0,
{
    lemma_after_drops_removes(es, t, drops);
    let a = after_drops(es, t, drops);
    if a.len() > 0 {
        assert(es.contains(a[0]));
        let m = choose|m: int| 0 <= m < es.len() && es[m] == a[0];
        let k = choose|k: int| 0 <= k < drops.len() && es[m].rowid == Some(drops[k].0) && es[m].sub.subscription_id == drops[k].1;
        assert(!(a[0].table@ == t && a[0].rowid == Some(drops[k].0) && a[0].sub.subscription_id == drops[k].1));
    }
    assert(a =~= Seq::<Registration<C>>::empty());
}

proof fn lemma_no_match_no_subscribers<C>(es: Seq<Registration<C>>, t: Seq<char>, rowid: Option<i64>)
    requires
        forall|i: int| 0 <= i < es.len() ==> !((#[trigger] es[i]).table@ == t && es[i].rowid == rowid),
    ensures
        subscribers_of(es, t, rowid).len() == 0,
    decreases es.len(),
{
    if es.len() > 0 {
        assert forall|i: int| 0 <= i < es.drop_last().len() implies !((#[trigger] es.drop_last()[i]).table@ == t
            && es.drop_last()[i].rowid == rowid) by {
            assert(es.drop_last()[i] == es[i]);
        }
        lemma_no_match_no_subscribers(es.drop_last(), t, rowid);
        assert(!(es[es.len() - 1].table@ == t && es[es.len() - 1].rowid == rowid));
    }
}

/// After the DELETE of record `rowid` of `t` has been reaped, nobody is
/// subscribed to that record any more, so no later change enqueues anything
/// for its former subscribers; the subscribers of other records and of the
/// table are kept as they were.
pub proof fn lemma_delete_reaps_record<C>(es: Seq<Registration<C>>, t: Seq<char>, rowid: i64, dead: Seq<i64>)
    ensures
        subscribers_of(kept(es, t, Some(rowid), false, dead, true), t, Some(rowid)).len() == 0,
        forall|i: int| 0 <= i < kept(es, t, Some(rowid), false, dead, true).len() ==> !(
            #[trigger] kept(es, t, Some(rowid), false, dead, true)[i].table@ == t && kept(es, t, Some(rowid), false, dead, true)[i].rowid
                == Some(rowid)),
{
    lemma_kept(es, t, Some(rowid), false, dead, true);
    let k = kept(es, t, Some(rowid), false, dead, true);
    assert forall|i: int| 0 <= i < k.len() implies !((#[trigger] k[i]).table@ == t && k[i].rowid == Some(rowid)) by {
        assert(!doomed(k[i], t, Some(rowid), false, dead, true));
    }
    lemma_no_match_no_subscribers(k, t, Some(rowid));
}

} // verus!
