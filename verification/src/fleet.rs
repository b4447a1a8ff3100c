use vstd::prelude::*;
use crate::strset::StringSet;

verus! {

/// A letter from a companion, delivered to the player's inbox.
#[derive(Debug, Clone)]
pub struct CompanionMessage {
    pub from: String,
    pub subject: String,
    pub body: String,
    pub read: bool,
}

/// Number of unread messages in `inbox`.
pub open spec fn count_unread(inbox: Seq<CompanionMessage>) -> nat
    decreases inbox.len(),
{
    if inbox.len() == 0 {
        0
    } else {
        count_unread(inbox.drop_last()) + if inbox.last().read {
            0nat
        } else {
            1
        }
    }
}

/// Delivers a new, unread message at the end of the inbox.
pub fn push_message(inbox: &mut Vec<CompanionMessage>, from: &str, subject: &str, body: &str)
    ensures
        final(inbox)@.len() == old(inbox)@.len() + 1,
        final(inbox)@.drop_last() == old(inbox)@,
        final(inbox)@.last().from@ == from@,
        final(inbox)@.last().subject@ == subject@,
        final(inbox)@.last().body@ == body@,
        !final(inbox)@.last().read,
{
    let ghost before = inbox@;
    inbox.push(
        CompanionMessage {
            from: String::from_str(from),
            subject: String::from_str(subject),
            body: String::from_str(body),
            read: false,
        },
    );
    assert(inbox@.drop_last() =~= before);
}

/// A newly delivered message adds one to the unread count.
pub proof fn lemma_delivery_adds_unread(inbox: Seq<CompanionMessage>, m: CompanionMessage)
    requires
        !m.read,
    ensures
        count_unread(inbox.push(m)) == count_unread(inbox) + 1,
{
    assert(inbox.push(m).drop_last() =~= inbox);
}

/// Number of unread messages in the inbox.
pub fn unread_count(inbox: &Vec<CompanionMessage>) -> (n: usize)
    ensures
        n == count_unread(inbox@),
{
    let mut n: usize = 0;
    let mut i: usize = 0;
    while i < inbox.len()
        invariant
            i <= inbox@.len(),
            n == count_unread(inbox@.take(i as int)),
            n <= i,
        decreases inbox@.len() - i,
    {
        assert(inbox@.take(i + 1).drop_last() =~= inbox@.take(i as int));
        if !inbox[i].read {
            n = n + 1;
        }
        i = i + 1;
    }
    assert(inbox@.take(inbox@.len() as int) =~= inbox@);
    n
}

/// The index of the most recent unread message, if there is one.
pub fn latest_unread(inbox: &Vec<CompanionMessage>) -> (r: Option<usize>)
    ensures
        match r {
            Some(i) => i < inbox@.len() && !inbox@[i as int].read && forall|j: int|
                i < j < inbox@.len() ==> inbox@[j].read,
            None => forall|j: int| 0 <= j < inbox@.len() ==> inbox@[j].read,
        },
{
    let mut i = inbox.len();
    while i > 0
        invariant
            i <= inbox@.len(),
            forall|j: int| i <= j < inbox@.len() ==> inbox@[j].read,
        decreases i,
    {
        if !inbox[i - 1].read {
            return Some(i - 1);
        }
        i = i - 1;
    }
    None
}

/// Reading a message in `inbox` removes it from the unread count once.
proof fn lemma_count_unread_update(inbox: Seq<CompanionMessage>, i: int, m: CompanionMessage)
    requires
        0 <= i < inbox.len(),
        m.read,
    ensures
        count_unread(inbox.update(i, m)) == count_unread(inbox) - if inbox[i].read {
            0int
        } else {
            1
        },
    decreases inbox.len(),
{
    if i == inbox.len() - 1 {
        assert(inbox.update(i, m).drop_last() =~= inbox.drop_last());
    } else {
        lemma_count_unread_update(inbox.drop_last(), i, m);
        assert(inbox.update(i, m).drop_last() =~= inbox.drop_last().update(i, m));
    }
}

/// Marks message `index` as read.
pub fn mark_read(inbox: &mut Vec<CompanionMessage>, index: usize)
    requires
        index < old(inbox)@.len(),
    ensures
        final(inbox)@.len() == old(inbox)@.len(),
        final(inbox)@[index as int].read,
        final(inbox)@[index as int].from == old(inbox)@[index as int].from,
        final(inbox)@[index as int].subject == old(inbox)@[index as int].subject,
        final(inbox)@[index as int].body == old(inbox)@[index as int].body,
        forall|j: int| 0 <= j < final(inbox)@.len() && j != index ==> final(inbox)@[j] == old(
            inbox,
        )@[j],
        count_unread(final(inbox)@) == count_unread(old(inbox)@) - if old(
            inbox,
        )@[index as int].read {
            0int
        } else {
            1
        },
{
    let ghost before = inbox@;
    let m = CompanionMessage {
        from: inbox[index].from.clone(),
        subject: inbox[index].subject.clone(),
        body: inbox[index].body.clone(),
        read: true,
    };
    inbox.set(index, m);
    proof {
        lemma_count_unread_update(before, index as int, inbox@[index as int]);
        assert(inbox@ =~= before.update(index as int, inbox@[index as int]));
    }
}

/// The letters that companions send when the voyage reaches certain points.
#[derive(Debug, Clone, Copy, PartialEq, Eq, Structural)]
pub enum Trigger {
    /// The fleet has left Sol.
    FirstArrival,
    /// A gas giant was mined: a hint about deuterium from hydrogen deuteride.
    GasGiantHint,
    /// Fuel is running low away from home.
    LowFuel,
    /// Four systems visited: a note on the arithmetic of time dilation.
    FourSystems,
    /// An ocean world was mined.
    OceanWater,
}

/// The event recorded when a gas giant or hot Jupiter is mined.
pub open spec fn gas_giant_mined_event() -> Seq<char> {
    "gas_giant_mined"@
}

/// The event recorded when an ocean world is mined.
pub open spec fn ocean_mined_event() -> Seq<char> {
    "ocean_mined"@
}

/// The id recorded once a trigger's letter has been sent.
pub open spec fn trigger_id(t: Trigger) -> Seq<char> {
    match t {
        Trigger::FirstArrival => "msg_first_arrival"@,
        Trigger::GasGiantHint => "msg_gas_giant_mined"@,
        Trigger::LowFuel => "msg_low_fuel"@,
        Trigger::FourSystems => "msg_systems_four"@,
        Trigger::OceanWater => "msg_ocean_mined"@,
    }
}

/// Whether the game state calls for trigger `t`'s letter, ignoring whether
/// it was already sent.
pub open spec fn trigger_condition(
    t: Trigger,
    fired: Set<Seq<char>>,
    visited_count: nat,
    low_fuel: bool,
) -> bool {
    match t {
        Trigger::FirstArrival => visited_count >= 2,
        Trigger::GasGiantHint => fired.contains(gas_giant_mined_event()),
        Trigger::LowFuel => visited_count >= 2 && low_fuel,
        Trigger::FourSystems => visited_count >= 4,
        Trigger::OceanWater => fired.contains(ocean_mined_event()),
    }
}

/// `t` alone when its letter is due, nothing otherwise.
pub open spec fn due_if(t: Trigger, fired: Set<Seq<char>>, visited_count: nat, low_fuel: bool) -> Seq<
    Trigger,
> {
    if trigger_condition(t, fired, visited_count, low_fuel) && !fired.contains(trigger_id(t)) {
        seq![t]
    } else {
        Seq::empty()
    }
}

/// The letters due now, in the order they are delivered: each whose
/// condition holds and whose id has not been recorded.
pub open spec fn due_triggers(fired: Set<Seq<char>>, visited_count: nat, low_fuel: bool) -> Seq<
    Trigger,
> {
    due_if(Trigger::FirstArrival, fired, visited_count, low_fuel) + due_if(
        Trigger::GasGiantHint,
        fired,
        visited_count,
        low_fuel,
    ) + due_if(Trigger::LowFuel, fired, visited_count, low_fuel) + due_if(
        Trigger::FourSystems,
        fired,
        visited_count,
        low_fuel,
    ) + due_if(Trigger::OceanWater, fired, visited_count, low_fuel)
}

/// The ids of the given triggers.
pub open spec fn trigger_ids(ts: Seq<Trigger>) -> Set<Seq<char>> {
    ts.map_values(|t: Trigger| trigger_id(t)).to_set()
}

fn trigger_id_str(t: Trigger) -> (r: &'static str)
    ensures
        r@ == trigger_id(t),
{
    match t {
        Trigger::FirstArrival => "msg_first_arrival",
        Trigger::GasGiantHint => "msg_gas_giant_mined",
        Trigger::LowFuel => "msg_low_fuel",
        Trigger::FourSystems => "msg_systems_four",
        Trigger::OceanWater => "msg_ocean_mined",
    }
}

/// Records that a raw game event occurred (e.g. "gas_giant_mined");
/// `check_triggers` turns recorded events into letters.
pub fn fire_trigger(fired: &mut StringSet, id: &str)
    ensures
        final(fired)@ == old(fired)@.insert(id@),
{
    fired.insert(id);
}

/// The event ids and letter ids are all distinct.
proof fn lemma_ids_distinct()
    ensures
        forall|t: Trigger| #[trigger]
            trigger_id(t) != gas_giant_mined_event() && trigger_id(t) != ocean_mined_event(),
        forall|t: Trigger, u: Trigger| #[trigger] trigger_id(t) == #[trigger] trigger_id(u) ==> t == u,
{
    reveal_strlit("msg_first_arrival");
    reveal_strlit("msg_gas_giant_mined");
    reveal_strlit("msg_low_fuel");
    reveal_strlit("msg_systems_four");
    reveal_strlit("msg_ocean_mined");
    reveal_strlit("gas_giant_mined");
    reveal_strlit("ocean_mined");
    assert forall|t: Trigger| #[trigger]
        trigger_id(t) != gas_giant_mined_event() && trigger_id(t) != ocean_mined_event() by {
        match t {
            Trigger::FirstArrival => {
                assert(trigger_id(t).len() != gas_giant_mined_event().len() || trigger_id(t)[0]
                    != gas_giant_mined_event()[0]);
                assert(trigger_id(t)[0] != ocean_mined_event()[0]);
            },
            _ => {
                assert(trigger_id(t)[0] != gas_giant_mined_event()[0]);
                assert(trigger_id(t)[0] != ocean_mined_event()[0]);
            },
        }
    }
    assert forall|t: Trigger, u: Trigger| #[trigger] trigger_id(t) == #[trigger] trigger_id(u) implies t == u by {
        if t != u {
            let (a, b) = (trigger_id(t), trigger_id(u));
            match t {
                Trigger::FirstArrival => assert(a[4] != b[4] || a.len() != b.len()),
                Trigger::GasGiantHint => assert(a[4] != b[4] || a.len() != b.len()),
                Trigger::LowFuel => assert(a[4] != b[4] || a.len() != b.len()),
                Trigger::FourSystems => assert(a[4] != b[4] || a.len() != b.len()),
                Trigger::OceanWater => assert(a[4] != b[4] || a.len() != b.len()),
            }
        }
    }
}

/// Each companion letter is sent at most once: once a check has delivered
/// it, it is never due again, whatever the voyage does next (the recorded ids
/// only ever grow: `fire_trigger` and `check_triggers` add to them).
pub proof fn lemma_letter_sent_once(
    fired: Set<Seq<char>>,
    visited: nat,
    low_fuel: bool,
    later: Set<Seq<char>>,
    later_visited: nat,
    later_low_fuel: bool,
    t: Trigger,
)
    requires
        due_triggers(fired, visited, low_fuel).contains(t),
        fired.union(trigger_ids(due_triggers(fired, visited, low_fuel))).subset_of(later),
    ensures
        !due_triggers(later, later_visited, later_low_fuel).contains(t),
{
    lemma_due_contains(fired, visited, low_fuel, t);
    lemma_due_contains(later, later_visited, later_low_fuel, t);
    let d = due_triggers(fired, visited, low_fuel);
    let i = choose|i: int| 0 <= i < d.len() && d[i] == t;
    assert(d.map_values(|u: Trigger| trigger_id(u))[i] == trigger_id(t));
    assert(trigger_ids(d).contains(trigger_id(t)));
}

proof fn lemma_in_concat(a: Seq<Trigger>, b: Seq<Trigger>, x: Trigger)
    ensures
        (a + b).contains(x) <==> (a.contains(x) || b.contains(x)),
{
    if (a + b).contains(x) {
        let j = choose|j: int| 0 <= j < (a + b).len() && (a + b)[j] == x;
        if j < a.len() {
            assert(a[j] == x);
        } else {
            assert(b[j - a.len()] == x);
        }
    }
    if a.contains(x) {
        let j = choose|j: int| 0 <= j < a.len() && a[j] == x;
        assert((a + b)[j] == x);
    }
    if b.contains(x) {
        let j = choose|j: int| 0 <= j < b.len() && b[j] == x;
        assert((a + b)[j + a.len()] == x);
    }
}

/// A letter is due exactly when its condition holds and it was not sent.
pub proof fn lemma_due_contains(fired: Set<Seq<char>>, visited: nat, low_fuel: bool, t: Trigger)
    ensures
        due_triggers(fired, visited, low_fuel).contains(t) <==> (trigger_condition(
            t,
            fired,
            visited,
            low_fuel,
        ) && !fired.contains(trigger_id(t))),
{
    let s1 = due_if(Trigger::FirstArrival, fired, visited, low_fuel);
    let s2 = due_if(Trigger::GasGiantHint, fired, visited, low_fuel);
    let s3 = due_if(Trigger::LowFuel, fired, visited, low_fuel);
    let s4 = due_if(Trigger::FourSystems, fired, visited, low_fuel);
    let s5 = due_if(Trigger::OceanWater, fired, visited, low_fuel);
    lemma_in_concat(s1, s2, t);
    lemma_in_concat(s1 + s2, s3, t);
    lemma_in_concat(s1 + s2 + s3, s4, t);
    lemma_in_concat(s1 + s2 + s3 + s4, s5, t);
    assert(s1.contains(t) <==> (t == Trigger::FirstArrival && s1.len() > 0)) by {
        if s1.len() > 0 {
            assert(s1[0] == Trigger::FirstArrival);
        }
    }
    assert(s2.contains(t) <==> (t == Trigger::GasGiantHint && s2.len() > 0)) by {
        if s2.len() > 0 {
            assert(s2[0] == Trigger::GasGiantHint);
        }
    }
    assert(s3.contains(t) <==> (t == Trigger::LowFuel && s3.len() > 0)) by {
        if s3.len() > 0 {
            assert(s3[0] == Trigger::LowFuel);
        }
    }
    assert(s4.contains(t) <==> (t == Trigger::FourSystems && s4.len() > 0)) by {
        if s4.len() > 0 {
            assert(s4[0] == Trigger::FourSystems);
        }
    }
    assert(s5.contains(t) <==> (t == Trigger::OceanWater && s5.len() > 0)) by {
        if s5.len() > 0 {
            assert(s5[0] == Trigger::OceanWater);
        }
    }
}

/// Sends `t`'s letter if `due` says so and it was not sent before.
fn consider(
    fired: &mut StringSet,
    due: &mut Vec<Trigger>,
    t: Trigger,
    condition: bool,
    Ghost(base): Ghost<Set<Seq<char>>>,
)
    requires
        old(fired)@ == base.union(trigger_ids(old(due)@)),
    ensures
        final(fired)@ == base.union(trigger_ids(final(due)@)),
        ({
            let sent = condition && !old(fired)@.contains(trigger_id(t));
            &&& sent ==> final(fired)@ == old(fired)@.insert(trigger_id(t)) && final(due)@ == old(
                due,
            )@.push(t)
            &&& !sent ==> final(fired)@ == old(fired)@ && final(due)@ == old(due)@
        }),
{
    if condition {
        let id = trigger_id_str(t);
        if !fired.contains(id) {
            fired.insert(id);
            let ghost before = due@;
            due.push(t);
            proof {
                before.lemma_push_map_commute(|t: Trigger| trigger_id(t), t);
                before.map_values(|t: Trigger| trigger_id(t)).lemma_push_to_set_commute(
                    trigger_id(t),
                );
                assert(fired@ =~= base.union(trigger_ids(due@)));
            }
        }
    }
}

/// Checks the game state for letters that are due, records their ids so that
/// each letter is sent only once, and returns them in delivery order.
/// `visited_count` is the number of systems visited; `low_fuel` tells
/// whether the tank is below 30%.
pub fn check_triggers(fired: &mut StringSet, visited_count: usize, low_fuel: bool) -> (due: Vec<
    Trigger,
>)
    ensures
        due@ == due_triggers(old(fired)@, visited_count as nat, low_fuel),
        final(fired)@ == old(fired)@.union(trigger_ids(due@)),
{
    proof {
        lemma_ids_distinct();
    }
    let ghost f0 = fired@;
    let ghost v = visited_count as nat;
    let mut due: Vec<Trigger> = Vec::new();
    assert(trigger_ids(due@) =~= Set::<Seq<char>>::empty());
    assert(fired@ =~= f0.union(trigger_ids(due@)));
    consider(fired, &mut due, Trigger::FirstArrival, visited_count >= 2, Ghost(f0));
    let gas = fired.contains("gas_giant_mined");
    consider(fired, &mut due, Trigger::GasGiantHint, gas, Ghost(f0));
    consider(fired, &mut due, Trigger::LowFuel, visited_count >= 2 && low_fuel, Ghost(f0));
    consider(fired, &mut due, Trigger::FourSystems, visited_count >= 4, Ghost(f0));
    let ocean = fired.contains("ocean_mined");
    consider(fired, &mut due, Trigger::OceanWater, ocean, Ghost(f0));
    proof {
        assert(due@ =~= due_triggers(f0, v, low_fuel));
    }
    due
}

/// A letter's id is recorded among the ids of a list of triggers exactly
/// when the letter is in the list.
proof fn lemma_ids_contain(d: Seq<Trigger>, t: Trigger)
    ensures
        trigger_ids(d).contains(trigger_id(t)) <==> d.contains(t),
{
    lemma_ids_distinct();
    if trigger_ids(d).contains(trigger_id(t)) {
        let m = d.map_values(|u: Trigger| trigger_id(u));
        let i = choose|i: int| 0 <= i < m.len() && m[i] == trigger_id(t);
        assert(d[i] == t);
    }
    if d.contains(t) {
        let i = choose|i: int| 0 <= i < d.len() && d[i] == t;
        assert(d.map_values(|u: Trigger| trigger_id(u))[i] == trigger_id(t));
    }
}

/// Which letters a check delivers, and what it records, in the game's own
/// terms, for any recorded ids, number of systems visited and fuel state:
/// - Yael's first-arrival letter once a second system has been visited;
/// - Reza's gas-giant letter once "gas_giant_mined" has been recorded;
/// - the low-fuel letter once a second system has been visited on low fuel;
/// - the four-systems letter once a fourth system has been visited;
/// - Yael's ocean-water letter once "ocean_mined" has been recorded;
/// each only while its "msg_..." id is not yet recorded; and afterwards the
/// letter's id is recorded exactly when it was before or the letter's
/// occasion has come.
pub proof fn lemma_letters_by_occasion(fired: Set<Seq<char>>, visited: nat, low_fuel: bool)
    ensures
        ({
            let due = due_triggers(fired, visited, low_fuel);
            let after = fired.union(trigger_ids(due));
            &&& due.contains(Trigger::FirstArrival) <==> visited >= 2 && !fired.contains(
                "msg_first_arrival"@,
            )
            &&& due.contains(Trigger::GasGiantHint) <==> fired.contains("gas_giant_mined"@)
                && !fired.contains("msg_gas_giant_mined"@)
            &&& due.contains(Trigger::LowFuel) <==> visited >= 2 && low_fuel && !fired.contains(
                "msg_low_fuel"@,
            )
            &&& due.contains(Trigger::FourSystems) <==> visited >= 4 && !fired.contains(
                "msg_systems_four"@,
            )
            &&& due.contains(Trigger::OceanWater) <==> fired.contains("ocean_mined"@)
                && !fired.contains("msg_ocean_mined"@)
            &&& after.contains("msg_first_arrival"@) <==> fired.contains("msg_first_arrival"@)
                || visited >= 2
            &&& after.contains("msg_gas_giant_mined"@) <==> fired.contains("msg_gas_giant_mined"@)
                || fired.contains("gas_giant_mined"@)
            &&& after.contains("msg_low_fuel"@) <==> fired.contains("msg_low_fuel"@) || (visited
                >= 2 && low_fuel)
            &&& after.contains("msg_systems_four"@) <==> fired.contains("msg_systems_four"@)
                || visited >= 4
            &&& after.contains("msg_ocean_mined"@) <==> fired.contains("msg_ocean_mined"@)
                || fired.contains("ocean_mined"@)
        }),
{
    let due = due_triggers(fired, visited, low_fuel);
    lemma_due_contains(fired, visited, low_fuel, Trigger::FirstArrival);
    lemma_due_contains(fired, visited, low_fuel, Trigger::GasGiantHint);
    lemma_due_contains(fired, visited, low_fuel, Trigger::LowFuel);
    lemma_due_contains(fired, visited, low_fuel, Trigger::FourSystems);
    lemma_due_contains(fired, visited, low_fuel, Trigger::OceanWater);
    lemma_ids_contain(due, Trigger::FirstArrival);
    lemma_ids_contain(due, Trigger::GasGiantHint);
    lemma_ids_contain(due, Trigger::LowFuel);
    lemma_ids_contain(due, Trigger::FourSystems);
    lemma_ids_contain(due, Trigger::OceanWater);
}

} // verus!
