//! Ordered listings over the store's tables: machines by name, users by
//! username, and a machine's comments and speed history newest first
//! (by timestamp, ties broken toward the later-appended row).

use vstd::prelude::*;

use crate::models::{HistoryEntry, Machine, MaintenanceComment, SpeedHistory, User, UserRecord};
use crate::sorting::{
    insert_ordered, lemma_insert_ordered_at, lex_lt, sort_ordered, str_lex_lt,
};

verus! {

/// The rows belonging to one machine.
pub open spec fn comment_for(machine_id: i64) -> spec_fn(MaintenanceComment) -> bool {
    |c: MaintenanceComment| c.machine_id == machine_id
}

/// The entries belonging to one machine.
pub open spec fn entry_for(machine_id: i64) -> spec_fn(HistoryEntry) -> bool {
    |e: HistoryEntry| e.machine_id == machine_id
}

/// Projection of a user row to its public view.
pub open spec fn user_public_view_fn() -> spec_fn(UserRecord) -> User {
    |u: UserRecord| u.spec_public_view()
}

/// Projection of a history entry to its public view.
pub open spec fn history_public_view_fn() -> spec_fn(HistoryEntry) -> SpeedHistory {
    |e: HistoryEntry| e.spec_public_view()
}

/// Machines list in ascending name order.
pub open spec fn machine_name_before() -> spec_fn(Machine, Machine) -> bool {
    |a: Machine, b: Machine| lex_lt(a.name@, b.name@)
}

/// Users list in ascending username order.
pub open spec fn user_name_before() -> spec_fn(User, User) -> bool {
    |a: User, b: User| lex_lt(a.username@, b.username@)
}

/// Comments list newest first: later creation time first, and among
/// equal times the later-appended (higher id) row first.
pub open spec fn comment_newer() -> spec_fn(MaintenanceComment, MaintenanceComment) -> bool {
    |a: MaintenanceComment, b: MaintenanceComment|
        a.created_at > b.created_at || (a.created_at == b.created_at && a.id > b.id)
}

/// History entries list newest first: later timestamp first, and among
/// equal timestamps the later-appended (higher entry id) row first.
pub open spec fn entry_newer() -> spec_fn(HistoryEntry, HistoryEntry) -> bool {
    |a: HistoryEntry, b: HistoryEntry|
        a.timestamp > b.timestamp || (a.timestamp == b.timestamp && a.entry_id > b.entry_id)
}

/// The first position in `list` whose machine `m` comes before.
fn find_pos_machine(list: &Vec<Machine>, m: &Machine) -> (p: usize)
    ensures
        p <= list@.len(),
        forall|j: int| 0 <= j < p ==> !machine_name_before()(*m, #[trigger] list@[j]),
        p < list@.len() ==> machine_name_before()(*m, list@[p as int]),
{
    let mut p: usize = 0;
    while p < list.len()
        invariant
            p <= list@.len(),
            forall|j: int| 0 <= j < p ==> !machine_name_before()(*m, #[trigger] list@[j]),
        decreases list@.len() - p,
    {
        if str_lex_lt(&m.name, &list[p].name) {
            return p;
        }
        p += 1;
    }
    p
}

/// Places a machine into a listing kept in ascending name order.
fn insert_machine_sorted(list: &mut Vec<Machine>, m: Machine)
    ensures
        final(list)@ == insert_ordered(old(list)@, m, machine_name_before()),
{
    let p = find_pos_machine(list, &m);
    proof {
        lemma_insert_ordered_at(list@, m, machine_name_before(), p as int);
    }
    list.insert(p, m);
}

/// A copy of the machines table in ascending name order.
pub fn machines_sorted_by_name(list: &Vec<Machine>) -> (r: Vec<Machine>)
    ensures
        r@ == sort_ordered(list@, machine_name_before()),
{
    let mut out: Vec<Machine> = Vec::new();
    let mut i: usize = 0;
    while i < list.len()
        invariant
            i <= list@.len(),
            out@ == sort_ordered(list@.take(i as int), machine_name_before()),
        decreases list@.len() - i,
    {
        let m = list[i].duplicate();
        insert_machine_sorted(&mut out, m);
        proof {
            assert(list@.take(i + 1 as int).drop_last() =~= list@.take(i as int));
            assert(list@.take(i + 1 as int).last() == list@[i as int]);
        }
        i += 1;
    }
    proof {
        assert(list@.take(list@.len() as int) =~= list@);
    }
    out
}

/// The first position in `list` whose user `u` comes before.
fn find_pos_user(list: &Vec<User>, u: &User) -> (p: usize)
    ensures
        p <= list@.len(),
        forall|j: int| 0 <= j < p ==> !user_name_before()(*u, #[trigger] list@[j]),
        p < list@.len() ==> user_name_before()(*u, list@[p as int]),
{
    let mut p: usize = 0;
    while p < list.len()
        invariant
            p <= list@.len(),
            forall|j: int| 0 <= j < p ==> !user_name_before()(*u, #[trigger] list@[j]),
        decreases list@.len() - p,
    {
        if str_lex_lt(&u.username, &list[p].username) {
            return p;
        }
        p += 1;
    }
    p
}

/// Places a user into a listing kept in ascending username order.
fn insert_user_sorted(list: &mut Vec<User>, u: User)
    ensures
        final(list)@ == insert_ordered(old(list)@, u, user_name_before()),
{
    let p = find_pos_user(list, &u);
    proof {
        lemma_insert_ordered_at(list@, u, user_name_before(), p as int);
    }
    list.insert(p, u);
}

/// The public views of the user table, in ascending username order.
pub fn users_sorted_by_username(list: &Vec<UserRecord>) -> (r: Vec<User>)
    ensures
        r@ == sort_ordered(
            list@.map_values(user_public_view_fn()),
            user_name_before(),
        ),
{
    let mut out: Vec<User> = Vec::new();
    let mut i: usize = 0;
    while i < list.len()
        invariant
            i <= list@.len(),
            out@ == sort_ordered(
                list@.take(i as int).map_values(user_public_view_fn()),
                user_name_before(),
            ),
        decreases list@.len() - i,
    {
        let u = list[i].public_view();
        insert_user_sorted(&mut out, u);
        proof {
            let f = user_public_view_fn();
            assert(list@.take(i + 1 as int).map_values(f).drop_last() =~= list@.take(
                i as int,
            ).map_values(f));
            assert(list@.take(i + 1 as int).map_values(f).last() == f(list@[i as int]));
            assert(list@.take(i + 1 as int).map_values(f).len() > 0);
        }
        i += 1;
    }
    proof {
        assert(list@.take(list@.len() as int) =~= list@);
    }
    out
}

/// The first position in `list` whose comment `c` comes before.
fn find_pos_comment(list: &Vec<MaintenanceComment>, c: &MaintenanceComment) -> (p: usize)
    ensures
        p <= list@.len(),
        forall|j: int| 0 <= j < p ==> !comment_newer()(*c, #[trigger] list@[j]),
        p < list@.len() ==> comment_newer()(*c, list@[p as int]),
{
    let mut p: usize = 0;
    while p < list.len()
        invariant
            p <= list@.len(),
            forall|j: int| 0 <= j < p ==> !comment_newer()(*c, #[trigger] list@[j]),
        decreases list@.len() - p,
    {
        let newer = c.created_at > list[p].created_at || (c.created_at == list[p].created_at
            && c.id > list[p].id);
        if newer {
            return p;
        }
        p += 1;
    }
    p
}

/// Places a comment into a listing kept newest first.
fn insert_comment_sorted(list: &mut Vec<MaintenanceComment>, c: MaintenanceComment)
    ensures
        final(list)@ == insert_ordered(old(list)@, c, comment_newer()),
{
    let p = find_pos_comment(list, &c);
    proof {
        lemma_insert_ordered_at(list@, c, comment_newer(), p as int);
    }
    list.insert(p, c);
}

/// A machine's comments, newest first.
pub fn comments_for_machine(list: &Vec<MaintenanceComment>, machine_id: i64) -> (r: Vec<
    MaintenanceComment,
>)
    ensures
        r@ == sort_ordered(
            list@.filter(comment_for(machine_id)),
            comment_newer(),
        ),
{
    let mut out: Vec<MaintenanceComment> = Vec::new();
    let mut i: usize = 0;
    proof {
        reveal(Seq::filter);
        assert(list@.take(0).filter(comment_for(machine_id)) =~= Seq::<
            MaintenanceComment,
        >::empty());
    }
    while i < list.len()
        invariant
            i <= list@.len(),
            out@ == sort_ordered(
                list@.take(i as int).filter(comment_for(machine_id)),
                comment_newer(),
            ),
        decreases list@.len() - i,
    {
        proof {
            reveal(Seq::filter);
            let specpred = comment_for(machine_id);
            assert(list@.take(i + 1 as int).drop_last() =~= list@.take(i as int));
            assert(list@.take(i + 1 as int).last() == list@[i as int]);
            assert(list@.take(i + 1 as int).filter(specpred) == if specpred(list@[i as int]) {
                list@.take(i as int).filter(specpred).push(list@[i as int])
            } else {
                list@.take(i as int).filter(specpred)
            });
            if specpred(list@[i as int]) {
                let grown = list@.take(i as int).filter(specpred).push(list@[i as int]);
                assert(grown.drop_last() =~= list@.take(i as int).filter(specpred));
                assert(grown.last() == list@[i as int]);
            }
        }
        if list[i].machine_id == machine_id {
            let c = list[i].duplicate();
            insert_comment_sorted(&mut out, c);
        }
        i += 1;
    }
    proof {
        assert(list@.take(list@.len() as int) =~= list@);
    }
    out
}

/// The first position in `list` whose entry `e` comes before.
fn find_pos_entry(list: &Vec<HistoryEntry>, e: &HistoryEntry) -> (p: usize)
    ensures
        p <= list@.len(),
        forall|j: int| 0 <= j < p ==> !entry_newer()(*e, #[trigger] list@[j]),
        p < list@.len() ==> entry_newer()(*e, list@[p as int]),
{
    let mut p: usize = 0;
    while p < list.len()
        invariant
            p <= list@.len(),
            forall|j: int| 0 <= j < p ==> !entry_newer()(*e, #[trigger] list@[j]),
        decreases list@.len() - p,
    {
        let newer = e.timestamp > list[p].timestamp || (e.timestamp == list[p].timestamp
            && e.entry_id > list[p].entry_id);
        if newer {
            return p;
        }
        p += 1;
    }
    p
}

/// Places a history entry into a listing kept newest first.
fn insert_entry_sorted(list: &mut Vec<HistoryEntry>, e: HistoryEntry)
    ensures
        final(list)@ == insert_ordered(old(list)@, e, entry_newer()),
{
    let p = find_pos_entry(list, &e);
    proof {
        lemma_insert_ordered_at(list@, e, entry_newer(), p as int);
    }
    list.insert(p, e);
}

/// A machine's history entries, newest first.
pub fn entries_for_machine(list: &Vec<HistoryEntry>, machine_id: i64) -> (r: Vec<HistoryEntry>)
    ensures
        r@ == sort_ordered(
            list@.filter(entry_for(machine_id)),
            entry_newer(),
        ),
{
    let mut out: Vec<HistoryEntry> = Vec::new();
    let mut i: usize = 0;
    proof {
        reveal(Seq::filter);
        assert(list@.take(0).filter(entry_for(machine_id)) =~= Seq::<HistoryEntry>::empty());
    }
    while i < list.len()
        invariant
            i <= list@.len(),
            out@ == sort_ordered(
                list@.take(i as int).filter(entry_for(machine_id)),
                entry_newer(),
            ),
        decreases list@.len() - i,
    {
        proof {
            reveal(Seq::filter);
            let specpred = entry_for(machine_id);
            assert(list@.take(i + 1 as int).drop_last() =~= list@.take(i as int));
            assert(list@.take(i + 1 as int).last() == list@[i as int]);
            assert(list@.take(i + 1 as int).filter(specpred) == if specpred(list@[i as int]) {
                list@.take(i as int).filter(specpred).push(list@[i as int])
            } else {
                list@.take(i as int).filter(specpred)
            });
            if specpred(list@[i as int]) {
                let grown = list@.take(i as int).filter(specpred).push(list@[i as int]);
                assert(grown.drop_last() =~= list@.take(i as int).filter(specpred));
                assert(grown.last() == list@[i as int]);
            }
        }
        if list[i].machine_id == machine_id {
            let e = list[i].duplicate();
            insert_entry_sorted(&mut out, e);
        }
        i += 1;
    }
    proof {
        assert(list@.take(list@.len() as int) =~= list@);
    }
    out
}

/// The public views of a listing of history entries, in order.
pub fn project_history(list: &Vec<HistoryEntry>) -> (r: Vec<SpeedHistory>)
    ensures
        r@ == list@.map_values(history_public_view_fn()),
{
    let mut out: Vec<SpeedHistory> = Vec::new();
    let mut i: usize = 0;
    while i < list.len()
        invariant
            i <= list@.len(),
            out@ == list@.take(i as int).map_values(history_public_view_fn()),
        decreases list@.len() - i,
    {
        out.push(list[i].public_view());
        proof {
            let f = history_public_view_fn();
            assert(list@.take(i + 1 as int).map_values(f) =~= list@.take(i as int).map_values(
                f,
            ).push(f(list@[i as int])));
        }
        i += 1;
    }
    proof {
        assert(list@.take(list@.len() as int) =~= list@);
    }
    out
}

/// Law: the machines listing is ordered by name and holds exactly the
/// machine rows it was built from.
pub proof fn lemma_machines_listing_ordered(s: Seq<Machine>)
    ensures
        crate::sorting::ordered_by(sort_ordered(s, machine_name_before()), machine_name_before()),
        sort_ordered(s, machine_name_before()).to_multiset() == s.to_multiset(),
{
    let bef = machine_name_before();
    assert forall|a: Machine, b: Machine, c: Machine| #![trigger bef(a, b), bef(b, c)]
        bef(a, b) && bef(b, c) implies bef(a, c) by {
        crate::sorting::lemma_lex_lt_transitive(a.name@, b.name@, c.name@);
    }
    assert forall|a: Machine, b: Machine| #![trigger bef(a, b), bef(b, a)]
        bef(a, b) implies !bef(b, a) by {
        crate::sorting::lemma_lex_lt_asymmetric(a.name@, b.name@);
    }
    crate::sorting::lemma_sort_ordered_is_ordered(s, bef);
    crate::sorting::lemma_sort_ordered_permutes(s, bef);
}

/// Law: the users listing is ordered by username and holds exactly the
/// user views it was built from.
pub proof fn lemma_users_listing_ordered(s: Seq<User>)
    ensures
        crate::sorting::ordered_by(sort_ordered(s, user_name_before()), user_name_before()),
        sort_ordered(s, user_name_before()).to_multiset() == s.to_multiset(),
{
    let bef = user_name_before();
    assert forall|a: User, b: User, c: User| #![trigger bef(a, b), bef(b, c)]
        bef(a, b) && bef(b, c) implies bef(a, c) by {
        crate::sorting::lemma_lex_lt_transitive(a.username@, b.username@, c.username@);
    }
    assert forall|a: User, b: User| #![trigger bef(a, b), bef(b, a)]
        bef(a, b) implies !bef(b, a) by {
        crate::sorting::lemma_lex_lt_asymmetric(a.username@, b.username@);
    }
    crate::sorting::lemma_sort_ordered_is_ordered(s, bef);
    crate::sorting::lemma_sort_ordered_permutes(s, bef);
}

/// Law: a comments listing is ordered newest first and holds exactly
/// the comment rows it was built from.
pub proof fn lemma_comments_listing_ordered(s: Seq<MaintenanceComment>)
    ensures
        crate::sorting::ordered_by(sort_ordered(s, comment_newer()), comment_newer()),
        sort_ordered(s, comment_newer()).to_multiset() == s.to_multiset(),
{
    crate::sorting::lemma_sort_ordered_is_ordered(s, comment_newer());
    crate::sorting::lemma_sort_ordered_permutes(s, comment_newer());
}

/// Law: a history listing is ordered newest first and holds exactly the
/// entries it was built from.
pub proof fn lemma_history_listing_ordered(s: Seq<HistoryEntry>)
    ensures
        crate::sorting::ordered_by(sort_ordered(s, entry_newer()), entry_newer()),
        sort_ordered(s, entry_newer()).to_multiset() == s.to_multiset(),
{
    crate::sorting::lemma_sort_ordered_is_ordered(s, entry_newer());
    crate::sorting::lemma_sort_ordered_permutes(s, entry_newer());
}

/// Law: a reading appended for machine M whose timestamp is at least as
/// late as every earlier reading of M heads M's newest-first history
/// listing, and the listing holds exactly M's entries.
pub proof fn lemma_fresh_reading_heads_history(entries: Seq<HistoryEntry>, machine_id: i64)
    requires
        entries.len() > 0,
        entries.last().machine_id == machine_id,
        forall|k: int|
            0 <= k < entries.len() - 1 ==> (#[trigger] entries[k].entry_id)
                < entries.last().entry_id,
        forall|k: int|
            0 <= k < entries.len() - 1 && (#[trigger] entries[k].machine_id) == machine_id
                ==> entries[k].timestamp <= entries.last().timestamp,
    ensures
        ({
            let listing = sort_ordered(entries.filter(entry_for(machine_id)), entry_newer());
            &&& listing.len() == entries.filter(entry_for(machine_id)).len()
            &&& listing.len() > 0
            &&& listing[0] == entries.last()
        }),
{
    reveal(Seq::filter);
    let pred = entry_for(machine_id);
    let filtered = entries.filter(pred);
    let prefix = entries.drop_last().filter(pred);
    assert(filtered == prefix.push(entries.last()));
    assert(filtered.last() == entries.last());
    assert forall|k: int|
        0 <= k < filtered.len() - 1 implies entry_newer()(
        filtered.last(),
        #[trigger] filtered[k],
    ) by {
        assert(filtered[k] == prefix[k]);
        crate::sorting::lemma_filter_element(entries.drop_last(), pred, k);
        let y = prefix[k];
        assert(entries.drop_last().contains(y));
        let w = choose|w: int| 0 <= w < entries.drop_last().len() && entries.drop_last()[w] == y;
        assert(entries[w] == y);
        assert(entries[w].entry_id < entries.last().entry_id);
        assert(entries[w].machine_id == machine_id);
        assert(entries[w].timestamp <= entries.last().timestamp);
    }
    crate::sorting::lemma_sort_ordered_newest_first(filtered, entry_newer());
    crate::sorting::lemma_sort_ordered_len(filtered, entry_newer());
}

} // verus!
