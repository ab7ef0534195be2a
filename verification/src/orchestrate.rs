//! Order scenes so that scenes sharing a server run together and a server
//! switch is planned only when the required server changes.
use vstd::prelude::*;
use crate::manifest::{Manifest, scene_index};

verus! {

/// One step of a capture plan.
#[derive(Debug, PartialEq, Eq)]
pub enum Step {
    Switch { server: Option<String> },
    Record { scene: String },
}

/// `Step` over string views.
pub enum StepView {
    Switch(Option<Seq<char>>),
    Record(Seq<char>),
}

/// The view of an optional string.
pub open spec fn opt_view(o: Option<String>) -> Option<Seq<char>> {
    match o {
        Some(s) => Some(s@),
        None => None,
    }
}

impl View for Step {
    type V = StepView;

    open spec fn view(&self) -> StepView {
        match self {
            Step::Switch { server } => StepView::Switch(opt_view(*server)),
            Step::Record { scene } => StepView::Record(scene@),
        }
    }
}

/// The views of a sequence of steps.
pub open spec fn steps_view(steps: Seq<Step>) -> Seq<StepView> {
    steps.map_values(|s: Step| s@)
}

/// The server required by the scene named `id`: `None` when no scene has that
/// id, `Some(None)` for a scene without a server.
pub open spec fn server_key(m: Manifest, id: Seq<char>) -> Option<Option<Seq<char>>> {
    match scene_index(m.scenes@, id) {
        Some(i) => Some(opt_view(m.scenes@[i as int].server)),
        None => None,
    }
}

/// The distinct servers required by `ids[..n]`, in first-seen order.
pub open spec fn server_order(m: Manifest, ids: Seq<String>, n: nat) -> Seq<Option<Seq<char>>>
    decreases n,
{
    if n == 0 {
        Seq::empty()
    } else {
        let prev = server_order(m, ids, (n - 1) as nat);
        match server_key(m, ids[n - 1]@) {
            None => prev,
            Some(k) => if prev.contains(k) {
                prev
            } else {
                prev.push(k)
            },
        }
    }
}

/// Record steps for the ids among `ids[..n]` whose scene needs server `k`, in order.
pub open spec fn records_for(
    m: Manifest,
    ids: Seq<String>,
    k: Option<Seq<char>>,
    n: nat,
) -> Seq<StepView>
    decreases n,
{
    if n == 0 {
        Seq::empty()
    } else {
        let prev = records_for(m, ids, k, (n - 1) as nat);
        if server_key(m, ids[n - 1]@) == Some(k) {
            prev.push(StepView::Record(ids[n - 1]@))
        } else {
            prev
        }
    }
}

/// The plan for the first `j` servers of `order`: a switch to each, then its scenes.
pub open spec fn plan_groups(
    m: Manifest,
    ids: Seq<String>,
    order: Seq<Option<Seq<char>>>,
    j: nat,
) -> Seq<StepView>
    decreases j,
{
    if j == 0 {
        Seq::empty()
    } else {
        plan_groups(m, ids, order, (j - 1) as nat) + seq![StepView::Switch(order[j - 1])]
            + records_for(m, ids, order[j - 1], ids.len())
    }
}

/// The capture plan for `ids`: servers in first-seen order, each switched to
/// once and followed by all of its scenes in `ids` order; unknown ids are dropped.
pub open spec fn plan_of(m: Manifest, ids: Seq<String>) -> Seq<StepView> {
    let order = server_order(m, ids, ids.len());
    plan_groups(m, ids, order, order.len())
}

fn clone_opt(o: &Option<String>) -> (r: Option<String>)
    ensures
        opt_view(r) == opt_view(*o),
{
    match o {
        Some(s) => Some(s.clone()),
        None => None,
    }
}

fn opt_eq(a: &Option<String>, b: &Option<String>) -> (r: bool)
    ensures
        r == (opt_view(*a) == opt_view(*b)),
{
    match (a, b) {
        (Some(x), Some(y)) => *x == *y,
        (None, None) => true,
        _ => false,
    }
}

fn order_contains(order: &Vec<Option<String>>, k: &Option<String>) -> (r: bool)
    ensures
        r == order@.map_values(|o: Option<String>| opt_view(o)).contains(opt_view(*k)),
{
    let ghost vs = order@.map_values(|o: Option<String>| opt_view(o));
    let mut i: usize = 0;
    while i < order.len()
        invariant
            i <= order.len(),
            vs == order@.map_values(|o: Option<String>| opt_view(o)),
            forall|j: int| 0 <= j < i ==> vs[j] != opt_view(*k),
        decreases order.len() - i,
    {
        if opt_eq(&order[i], k) {
            assert(vs[i as int] == opt_view(*k));
            return true;
        }
        i = i + 1;
    }
    false
}

proof fn lemma_server_order_no_dups(m: Manifest, ids: Seq<String>, n: nat)
    ensures
        server_order(m, ids, n).no_duplicates(),
    decreases n,
{
    if n > 0 {
        lemma_server_order_no_dups(m, ids, (n - 1) as nat);
    }
}

fn step_switch(k: &Option<String>) -> (s: Step)
    ensures
        s@ == StepView::Switch(opt_view(*k)),
{
    Step::Switch { server: clone_opt(k) }
}

/// Produce the ordered plan for the scenes `ids` of `m`.
pub fn plan(m: &Manifest, ids: &[String]) -> (steps: Vec<Step>)
    ensures
        steps_view(steps@) == plan_of(*m, ids@),
{
    // Distinct servers in first-seen order.
    let mut order: Vec<Option<String>> = Vec::new();
    let mut i: usize = 0;
    while i < ids.len()
        invariant
            i <= ids.len(),
            order@.map_values(|o: Option<String>| opt_view(o)) == server_order(
                *m,
                ids@,
                i as nat,
            ),
        decreases ids.len() - i,
    {
        match m.scene(ids[i].as_str()) {
            Some(s) => {
                let key = clone_opt(&s.server);
                if !order_contains(&order, &key) {
                    let ghost before = order@;
                    order.push(key);
                    assert(order@.map_values(|o: Option<String>| opt_view(o)) =~= before.map_values(
                        |o: Option<String>| opt_view(o),
                    ).push(opt_view(key)));
                }
            },
            None => {},
        }
        i = i + 1;
    }
    let ghost ord = order@.map_values(|o: Option<String>| opt_view(o));
    proof {
        lemma_server_order_no_dups(*m, ids@, ids@.len());
    }
    let mut steps: Vec<Step> = Vec::new();
    let mut j: usize = 0;
    while j < order.len()
        invariant
            j <= order.len(),
            ord == order@.map_values(|o: Option<String>| opt_view(o)),
            ord == server_order(*m, ids@, ids@.len()),
            ord.no_duplicates(),
            steps_view(steps@) == plan_groups(*m, ids@, ord, j as nat),
        decreases order.len() - j,
    {
        let key = &order[j];
        let ghost base = steps_view(steps@);
        let mut switched = false;
        let mut i: usize = 0;
        while i < ids.len()
            invariant
                j < order.len(),
                i <= ids.len(),
                ord == order@.map_values(|o: Option<String>| opt_view(o)),
                opt_view(*key) == ord[j as int],
                base == plan_groups(*m, ids@, ord, j as nat),
                switched == (records_for(*m, ids@, ord[j as int], i as nat).len() > 0),
                !switched ==> steps_view(steps@) == base,
                switched ==> steps_view(steps@) == base + seq![StepView::Switch(ord[j as int])]
                    + records_for(*m, ids@, ord[j as int], i as nat),
            decreases ids.len() - i,
        {
            match m.scene(ids[i].as_str()) {
                Some(s) => {
                    if opt_eq(&s.server, key) {
                        if !switched {
                            let ghost before = steps@;
                            steps.push(step_switch(key));
                            assert(steps_view(steps@) =~= steps_view(before).push(
                                StepView::Switch(ord[j as int]),
                            ));
                            switched = true;
                        }
                        let ghost before = steps@;
                        steps.push(Step::Record { scene: ids[i].clone() });
                        assert(steps_view(steps@) =~= steps_view(before).push(
                            StepView::Record(ids@[i as int]@),
                        ));
                        assert(steps_view(steps@) =~= base + seq![StepView::Switch(ord[j as int])]
                            + records_for(*m, ids@, ord[j as int], (i + 1) as nat));
                    }
                },
                None => {},
            }
            i = i + 1;
        }
        proof {
            lemma_group_nonempty(*m, ids@, j as nat);
            assert(steps_view(steps@) =~= plan_groups(*m, ids@, ord, (j + 1) as nat));
        }
        j = j + 1;
    }
    steps
}

proof fn lemma_records_nonempty(m: Manifest, ids: Seq<String>, k: Option<Seq<char>>, n: nat, i: nat)
    requires
        i < n <= ids.len(),
        server_key(m, ids[i as int]@) == Some(k),
    ensures
        records_for(m, ids, k, n).len() > 0,
    decreases n,
{
    if i < n - 1 {
        lemma_records_nonempty(m, ids, k, (n - 1) as nat, i);
    }
}

/// Every server in the order is needed by some id.
proof fn lemma_order_member_needed(m: Manifest, ids: Seq<String>, n: nat, j: int)
    requires
        n <= ids.len(),
        0 <= j < server_order(m, ids, n).len(),
    ensures
        exists|i: nat| i < n && server_key(m, ids[i as int]@) == Some(server_order(m, ids, n)[j]),
    decreases n,
{
    let prev = server_order(m, ids, (n - 1) as nat);
    if j < prev.len() {
        lemma_order_member_needed(m, ids, (n - 1) as nat, j);
        let i = choose|i: nat| i < n - 1 && server_key(m, ids[i as int]@) == Some(prev[j]);
        assert(server_key(m, ids[i as int]@) == Some(server_order(m, ids, n)[j]));
    } else {
        let i = (n - 1) as nat;
        assert(server_key(m, ids[i as int]@) == Some(server_order(m, ids, n)[j]));
    }
}

proof fn lemma_group_nonempty(m: Manifest, ids: Seq<String>, j: nat)
    requires
        j < server_order(m, ids, ids.len()).len(),
    ensures
        records_for(m, ids, server_order(m, ids, ids.len())[j as int], ids.len()).len() > 0,
{
    lemma_order_member_needed(m, ids, ids.len(), j as int);
    let k = server_order(m, ids, ids.len())[j as int];
    let i = choose|i: nat| i < ids.len() && server_key(m, ids[i as int]@) == Some(k);
    lemma_records_nonempty(m, ids, k, ids.len(), i);
}

// ---------------------------------------------------------------------------
// Laws of the plan

/// How many `Record` steps of `s` name `x`.
pub open spec fn record_count(s: Seq<StepView>, x: Seq<char>) -> nat
    decreases s.len(),
{
    if s.len() == 0 {
        0
    } else {
        record_count(s.drop_last(), x) + if s.last() == StepView::Record(x) {
            1nat
        } else {
            0nat
        }
    }
}

/// How many of `ids[..n]` are `x`.
pub open spec fn id_count(ids: Seq<String>, x: Seq<char>, n: nat) -> nat
    decreases n,
{
    if n == 0 {
        0
    } else {
        id_count(ids, x, (n - 1) as nat) + if ids[n - 1]@ == x {
            1nat
        } else {
            0nat
        }
    }
}

/// The servers named by the `Switch` steps of `s`, in order.
pub open spec fn switch_list(s: Seq<StepView>) -> Seq<Option<Seq<char>>>
    decreases s.len(),
{
    if s.len() == 0 {
        Seq::empty()
    } else {
        switch_list(s.drop_last()) + match s.last() {
            StepView::Switch(k) => seq![k],
            StepView::Record(_) => Seq::empty(),
        }
    }
}

/// The server of the last `Switch` step of `s`.
pub open spec fn last_switch(s: Seq<StepView>) -> Option<Option<Seq<char>>>
    decreases s.len(),
{
    if s.len() == 0 {
        None
    } else {
        match s.last() {
            StepView::Switch(k) => Some(k),
            StepView::Record(_) => last_switch(s.drop_last()),
        }
    }
}

proof fn lemma_record_count_concat(a: Seq<StepView>, b: Seq<StepView>, x: Seq<char>)
    ensures
        record_count(a + b, x) == record_count(a, x) + record_count(b, x),
    decreases b.len(),
{
    if b.len() > 0 {
        assert((a + b).drop_last() =~= a + b.drop_last());
        lemma_record_count_concat(a, b.drop_last(), x);
    } else {
        assert(a + b =~= a);
    }
}

proof fn lemma_switch_list_concat(a: Seq<StepView>, b: Seq<StepView>)
    ensures
        switch_list(a + b) == switch_list(a) + switch_list(b),
    decreases b.len(),
{
    if b.len() > 0 {
        assert((a + b).drop_last() =~= a + b.drop_last());
        lemma_switch_list_concat(a, b.drop_last());
        assert(switch_list(a + b) =~= switch_list(a) + switch_list(b));
    } else {
        assert(a + b =~= a);
        assert(switch_list(a) + switch_list(b) =~= switch_list(a));
    }
}

/// Record steps only, each for an id whose scene needs server `k`.
pub open spec fn records_needing(s: Seq<StepView>, m: Manifest, k: Option<Seq<char>>) -> bool {
    forall|q: int|
        0 <= q < s.len() ==> (#[trigger] s[q] matches StepView::Record(y) && server_key(m, y)
            == Some(k))
}

proof fn lemma_records_for_shape(m: Manifest, ids: Seq<String>, k: Option<Seq<char>>, n: nat)
    requires
        n <= ids.len(),
    ensures
        records_needing(records_for(m, ids, k, n), m, k),
        switch_list(records_for(m, ids, k, n)) == Seq::<Option<Seq<char>>>::empty(),
        forall|x: Seq<char>|
            #[trigger] record_count(records_for(m, ids, k, n), x) == if server_key(m, x) == Some(
                k,
            ) {
                id_count(ids, x, n)
            } else {
                0
            },
    decreases n,
{
    if n > 0 {
        lemma_records_for_shape(m, ids, k, (n - 1) as nat);
        let prev = records_for(m, ids, k, (n - 1) as nat);
        let cur = records_for(m, ids, k, n);
        let id = ids[n - 1]@;
        assert forall|x: Seq<char>|
            #[trigger] record_count(cur, x) == if server_key(m, x) == Some(k) {
                id_count(ids, x, n)
            } else {
                0
            } by {
            let c0 = record_count(prev, x);
            assert(id_count(ids, x, n) == id_count(ids, x, (n - 1) as nat) + if id == x {
                1nat
            } else {
                0nat
            });
            if server_key(m, id) == Some(k) {
                assert(cur.drop_last() =~= prev);
                assert(cur.last() == StepView::Record(id));
                assert(record_count(cur, x) == c0 + if StepView::Record(id) == StepView::Record(
                    x,
                ) {
                    1nat
                } else {
                    0nat
                });
                if id == x {
                } else {
                    assert(StepView::Record(id) != StepView::Record(x));
                }
            } else {
                assert(cur == prev);
            }
        }
        if server_key(m, ids[n - 1]@) == Some(k) {
            let s = prev.push(StepView::Record(ids[n - 1]@));
            assert(s.drop_last() =~= prev);
            assert(records_needing(s, m, k)) by {
                assert forall|q: int| 0 <= q < s.len() implies (#[trigger] s[q] matches StepView::Record(
                    y,
                ) && server_key(m, y) == Some(k)) by {
                    if q < prev.len() {
                        assert(s[q] == prev[q]);
                    }
                }
            }
        }
    }
}

proof fn lemma_singleton_switch(k: Option<Seq<char>>)
    ensures
        switch_list(seq![StepView::Switch(k)]) == seq![k],
        forall|x: Seq<char>| #[trigger] record_count(seq![StepView::Switch(k)], x) == 0,
{
    let s = seq![StepView::Switch(k)];
    assert(s.drop_last() =~= Seq::<StepView>::empty());
    assert(s.last() == StepView::Switch(k));
    assert(switch_list(s.drop_last()) == Seq::<Option<Seq<char>>>::empty());
    assert(switch_list(s) =~= seq![k]);
    assert forall|x: Seq<char>| #[trigger] record_count(s, x) == 0 by {
        assert(record_count(s.drop_last(), x) == 0);
    }
}

proof fn lemma_last_switch_records(a: Seq<StepView>, r: Seq<StepView>, m: Manifest, k: Option<Seq<char>>)
    requires
        records_needing(r, m, k),
    ensures
        last_switch(a + r) == last_switch(a),
    decreases r.len(),
{
    if r.len() > 0 {
        assert((a + r).drop_last() =~= a + r.drop_last());
        assert(r.last() == r[r.len() - 1]);
        assert(records_needing(r.drop_last(), m, k)) by {
            assert forall|q: int| 0 <= q < r.drop_last().len() implies (
            #[trigger] r.drop_last()[q] matches StepView::Record(y) && server_key(m, y) == Some(
                k,
            )) by {
                assert(r.drop_last()[q] == r[q]);
            }
        }
        lemma_last_switch_records(a, r.drop_last(), m, k);
    } else {
        assert(a + r =~= a);
    }
}

/// Facts about the first `j` groups of a plan.
proof fn lemma_plan_groups(m: Manifest, ids: Seq<String>, j: nat)
    requires
        j <= server_order(m, ids, ids.len()).len(),
    ensures
        ({
            let order = server_order(m, ids, ids.len());
            let p = plan_groups(m, ids, order, j);
            &&& switch_list(p) == order.subrange(0, j as int)
            &&& forall|x: Seq<char>|
                #[trigger] record_count(p, x) == if (exists|t: int|
                    0 <= t < j && server_key(m, x) == Some(order[t])) {
                    id_count(ids, x, ids.len())
                } else {
                    0
                }
            &&& forall|q: int|
                0 <= q < p.len() ==> (#[trigger] p[q] matches StepView::Record(x) ==> last_switch(
                    p.subrange(0, q + 1),
                ) == server_key(m, x))
        }),
    decreases j,
{
    let order = server_order(m, ids, ids.len());
    lemma_server_order_no_dups(m, ids, ids.len());
    if j > 0 {
        lemma_plan_groups(m, ids, (j - 1) as nat);
        let a = plan_groups(m, ids, order, (j - 1) as nat);
        let k = order[j - 1];
        let r = records_for(m, ids, k, ids.len());
        lemma_records_for_shape(m, ids, k, ids.len());
        let b = seq![StepView::Switch(k)] + r;
        let p = plan_groups(m, ids, order, j);
        assert(p =~= a + b);
        // switches
        lemma_switch_list_concat(a, b);
        lemma_switch_list_concat(seq![StepView::Switch(k)], r);
        lemma_singleton_switch(k);
        assert(switch_list(p) =~= order.subrange(0, j as int));
        // record counts
        assert forall|x: Seq<char>|
            #[trigger] record_count(p, x) == if (exists|t: int|
                0 <= t < j && server_key(m, x) == Some(order[t])) {
                id_count(ids, x, ids.len())
            } else {
                0
            } by {
            lemma_record_count_concat(a, b, x);
            lemma_record_count_concat(seq![StepView::Switch(k)], r, x);
            assert(record_count(r, x) == if server_key(m, x) == Some(k) {
                id_count(ids, x, ids.len())
            } else {
                0
            });
            if server_key(m, x) == Some(k) {
                assert forall|t: int| 0 <= t < j - 1 implies #[trigger] order[t] != order[j - 1] by {
                    assert(order.no_duplicates());
                }
            } else {
                if exists|t: int| 0 <= t < j && server_key(m, x) == Some(order[t]) {
                    let t = choose|t: int| 0 <= t < j && server_key(m, x) == Some(order[t]);
                    assert(t < j - 1);
                }
            }
        }
        // every record runs under its scene's server
        assert forall|q: int|
            0 <= q < p.len() implies (#[trigger] p[q] matches StepView::Record(x) ==> last_switch(
                p.subrange(0, q + 1),
            ) == server_key(m, x)) by {
            if q < a.len() {
                assert(p[q] == a[q]);
                assert(p.subrange(0, q + 1) =~= a.subrange(0, q + 1));
            } else if q == a.len() {
                assert(p[q] == StepView::Switch(k));
            } else {
                let qq = q - a.len() - 1;
                assert(p[q] == r[qq]);
                assert(r[qq] matches StepView::Record(y) && server_key(m, y) == Some(k));
                let front = a.push(StepView::Switch(k));
                let rr = r.subrange(0, qq + 1);
                assert(p.subrange(0, q + 1) =~= front + rr);
                assert(records_needing(rr, m, k)) by {
                    assert forall|t: int| 0 <= t < rr.len() implies (
                    #[trigger] rr[t] matches StepView::Record(y) && server_key(m, y) == Some(k)) by {
                        assert(rr[t] == r[t]);
                    }
                }
                lemma_last_switch_records(front, rr, m, k);
                assert(front.drop_last() =~= a);
            }
        }
    } else {
        assert(order.subrange(0, 0) =~= Seq::<Option<Seq<char>>>::empty());
    }
}

proof fn lemma_key_in_order(m: Manifest, ids: Seq<String>, n: nat, x: Seq<char>)
    requires
        n <= ids.len(),
        server_key(m, x) is Some,
        id_count(ids, x, n) > 0,
    ensures
        server_order(m, ids, n).contains(server_key(m, x)->0),
    decreases n,
{
    let prev = server_order(m, ids, (n - 1) as nat);
    if ids[n - 1]@ == x {
        if !prev.contains(server_key(m, x)->0) {
            assert(server_order(m, ids, n).last() == server_key(m, x)->0);
        }
    } else {
        lemma_key_in_order(m, ids, (n - 1) as nat, x);
    }
    let cur = server_order(m, ids, n);
    let k = server_key(m, x)->0;
    assert(prev.contains(k) ==> cur.contains(k)) by {
        if prev.contains(k) {
            let t = choose|t: int| 0 <= t < prev.len() && prev[t] == k;
            assert(cur[t] == k);
        }
    }
}

/// Each required server is switched to exactly once: the plan's switches are
/// the distinct servers of the known scenes, in first-seen order.
pub proof fn law_plan_switches_once(m: Manifest, ids: Seq<String>)
    ensures
        switch_list(plan_of(m, ids)) == server_order(m, ids, ids.len()),
        switch_list(plan_of(m, ids)).no_duplicates(),
        forall|k: Option<Seq<char>>|
            switch_list(plan_of(m, ids)).contains(k) <==> exists|i: int|
                0 <= i < ids.len() && server_key(m, (#[trigger] ids[i])@) == Some(k),
{
    let order = server_order(m, ids, ids.len());
    lemma_plan_groups(m, ids, order.len());
    assert(order.subrange(0, order.len() as int) =~= order);
    lemma_server_order_no_dups(m, ids, ids.len());
    assert forall|k: Option<Seq<char>>|
        switch_list(plan_of(m, ids)).contains(k) <==> exists|i: int|
            0 <= i < ids.len() && server_key(m, (#[trigger] ids[i])@) == Some(k) by {
        if order.contains(k) {
            let t = choose|t: int| 0 <= t < order.len() && order[t] == k;
            lemma_order_member_needed(m, ids, ids.len(), t);
            let i = choose|i: nat| i < ids.len() && server_key(m, ids[i as int]@) == Some(order[t]);
            assert(server_key(m, ids[i as int]@) == Some(k));
        }
        if exists|i: int| 0 <= i < ids.len() && server_key(m, (#[trigger] ids[i])@) == Some(k) {
            let i = choose|i: int| 0 <= i < ids.len() && server_key(m, (#[trigger] ids[i])@) == Some(k);
            lemma_id_count_pos(ids, i, ids.len());
            lemma_key_in_order(m, ids, ids.len(), ids[i]@);
        }
    }
}

proof fn lemma_id_count_pos(ids: Seq<String>, i: int, n: nat)
    requires
        0 <= i < n <= ids.len(),
    ensures
        id_count(ids, ids[i]@, n) > 0,
    decreases n,
{
    if i < n - 1 {
        lemma_id_count_pos(ids, i, (n - 1) as nat);
    }
}

/// Every selected id with a scene is recorded exactly as often as it was
/// selected; ids without a scene are never recorded.
pub proof fn law_plan_records_each_selected(m: Manifest, ids: Seq<String>, x: Seq<char>)
    ensures
        record_count(plan_of(m, ids), x) == if server_key(m, x) is Some {
            id_count(ids, x, ids.len())
        } else {
            0
        },
{
    let order = server_order(m, ids, ids.len());
    lemma_plan_groups(m, ids, order.len());
    assert(record_count(plan_of(m, ids), x) == if (exists|t: int|
        0 <= t < order.len() && server_key(m, x) == Some(order[t])) {
        id_count(ids, x, ids.len())
    } else {
        0
    });
    if server_key(m, x) is Some && id_count(ids, x, ids.len()) > 0 {
        lemma_key_in_order(m, ids, ids.len(), x);
        let t = choose|t: int| 0 <= t < order.len() && order[t] == server_key(m, x)->0;
        assert(server_key(m, x) == Some(order[t]));
    }
}

/// Every `Record` step comes after a switch to the server its scene needs,
/// with no other switch in between.
pub proof fn law_plan_records_under_their_server(m: Manifest, ids: Seq<String>, q: int)
    requires
        0 <= q < plan_of(m, ids).len(),
    ensures
        plan_of(m, ids)[q] matches StepView::Record(x) ==> last_switch(
            plan_of(m, ids).subrange(0, q + 1),
        ) == server_key(m, x),
{
    let order = server_order(m, ids, ids.len());
    lemma_plan_groups(m, ids, order.len());
}

} // verus!
