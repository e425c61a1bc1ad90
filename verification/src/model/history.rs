//! The engine's history, restated for a surface: every detail present, amounts in XMR too, newest
//! first.

use vstd::prelude::*;

use crate::json::{list_view, list_view_index, list_view_len, Json, JsonView};
use crate::model::amount::{format_xmr, formatted, parse_undoes_format, parsed};
use crate::text::{numeral, u64_of};

verus! {

/// An amount in XMR as it is shown: nothing where the atomic units are none.
pub open spec fn shown(atomic: Seq<char>) -> Seq<char> {
    match formatted(atomic) {
        Some(s) => s,
        None => Seq::empty(),
    }
}

/// An amount in XMR as it is shown.
pub fn show_xmr(atomic: &str) -> (r: String)
    ensures
        r@ == shown(atomic@),
{
    match format_xmr(atomic) {
        Some(s) => s,
        None => String::new(),
    }
}

/// One row of the history, restated. What the engine leaves out is empty, never null.
pub open spec fn restated(row: JsonView) -> JsonView {
    let amount = row.text_or("amount"@, "0"@);
    let fee = row.text_or("fee"@, "0"@);
    let nothing = JsonView::Text(""@);
    let zero = JsonView::Unsigned(0);
    let no = JsonView::Bool(false);
    JsonView::object()
        .with("txid"@, row.get_or("txid"@, nothing))
        .with("direction"@, row.get_or("direction"@, JsonView::Text("in"@)))
        .with("amount"@, JsonView::Text(amount))
        .with("amountXmr"@, JsonView::Text(shown(amount)))
        .with("fee"@, JsonView::Text(fee))
        .with("feeXmr"@, JsonView::Text(shown(fee)))
        .with("height"@, row.get_or("height"@, zero))
        .with("confirmations"@, row.get_or("confirmations"@, zero))
        .with("timestamp"@, row.get_or("timestamp"@, zero))
        .with("pending"@, row.get_or("pending"@, no))
        .with("failed"@, row.get_or("failed"@, no))
        .with("unlockTime"@, row.get_or("unlockTime"@, zero))
        .with("account"@, row.get_or("account"@, zero))
        .with("paymentId"@, row.get_or("paymentId"@, nothing))
        .with("description"@, row.get_or("description"@, nothing))
        .with("subaddrIndex"@, row.get_or("subaddrIndex"@, nothing))
        .with("coinbase"@, row.get_or("coinbase"@, no))
        .with("destinations"@, row.get_or("destinations"@, JsonView::List(Seq::empty())))
}

/// How new a row is: by its height, and a pending row, which has none, is newer than all.
pub open spec fn newness(row: JsonView) -> u64 {
    let height = row.unsigned_at("height"@);
    if height == 0 {
        u64::MAX
    } else {
        height
    }
}

/// The rows that are as new as `n`, in their order.
pub open spec fn as_new_as(rows: Seq<JsonView>, n: u64) -> Seq<JsonView> {
    rows.filter(|row: JsonView| newness(row) == n)
}

/// `out` has the rows of `rows`, newest first, and equally new ones as they stood.
pub open spec fn newest_first(out: Seq<JsonView>, rows: Seq<JsonView>) -> bool {
    &&& forall|i: int, j: int|
        0 <= i < j < out.len() ==> newness(#[trigger] out[i]) >= newness(#[trigger] out[j])
    &&& forall|n: u64| #[trigger] as_new_as(out, n) == as_new_as(rows, n)
}

/// One row, restated.
fn restate(row: &Json) -> (r: Json)
    ensures
        r@ == restated(row@),
{
    let amount = row.text_or("amount", "0");
    let fee = row.text_or("fee", "0");
    let amount_xmr = show_xmr(amount.as_str());
    let fee_xmr = show_xmr(fee.as_str());
    let none: Vec<Json> = Vec::new();
    assert(list_view(none@) =~= Seq::<JsonView>::empty());
    Json::object()
        .with("txid", row.get_or("txid", Json::text("")))
        .with("direction", row.get_or("direction", Json::text("in")))
        .with("amount", Json::Text(amount))
        .with("amountXmr", Json::Text(amount_xmr))
        .with("fee", Json::Text(fee))
        .with("feeXmr", Json::Text(fee_xmr))
        .with("height", row.get_or("height", Json::Unsigned(0)))
        .with("confirmations", row.get_or("confirmations", Json::Unsigned(0)))
        .with("timestamp", row.get_or("timestamp", Json::Unsigned(0)))
        .with("pending", row.get_or("pending", Json::Bool(false)))
        .with("failed", row.get_or("failed", Json::Bool(false)))
        .with("unlockTime", row.get_or("unlockTime", Json::Unsigned(0)))
        .with("account", row.get_or("account", Json::Unsigned(0)))
        .with("paymentId", row.get_or("paymentId", Json::text("")))
        .with("description", row.get_or("description", Json::text("")))
        .with("subaddrIndex", row.get_or("subaddrIndex", Json::text("")))
        .with("coinbase", row.get_or("coinbase", Json::Bool(false)))
        .with("destinations", row.get_or("destinations", Json::List(none)))
}

// ---------------------------------------------------------------------------------------------
// Sorting
// ---------------------------------------------------------------------------------------------

/// Rows beside how new they are.
type Keyed = (u64, Json);

/// Whether a row is as new as `n`.
spec fn keyed(n: u64) -> spec_fn(Keyed) -> bool {
    |row: Keyed| row.0 == n
}

/// The newest rows come first.
spec fn falling(rows: Seq<Keyed>) -> bool {
    forall|i: int, j: int| 0 <= i < j < rows.len() ==> (#[trigger] rows[i]).0 >= (#[trigger] rows[j]).0
}

/// Nothing is as new as `n`, so nothing is left of the rows.
proof fn none_keyed(rows: Seq<Keyed>, n: u64)
    requires
        forall|i: int| 0 <= i < rows.len() ==> (#[trigger] rows[i]).0 != n,
    ensures
        rows.filter(keyed(n)) == Seq::<Keyed>::empty(),
    decreases rows.len(),
{
    reveal(Seq::filter);
    if rows.len() > 0 {
        assert(rows.last() == rows[rows.len() - 1]);
        assert forall|i: int| 0 <= i < rows.drop_last().len() implies (#[trigger] rows.drop_last()[i]).0
            != n by {
            assert(rows.drop_last()[i] == rows[i]);
        }
        none_keyed(rows.drop_last(), n);
    }
}

/// The last row moves from the end of one part to the front of what is done.
proof fn last_moves(rows: Seq<Keyed>, done: Seq<Keyed>, n: u64)
    requires
        rows.len() > 0,
    ensures
        rows.drop_last().filter(keyed(n)) + (seq![rows.last()] + done).filter(keyed(n)) == rows.filter(
            keyed(n),
        ) + done.filter(keyed(n)),
{
    let rest = rows.drop_last();
    let one = seq![rows.last()];
    assert(rest + one =~= rows);
    Seq::filter_distributes_over_add(rest, one, keyed(n));
    Seq::filter_distributes_over_add(one, done, keyed(n));
    assert(rest.filter(keyed(n)) + (one.filter(keyed(n)) + done.filter(keyed(n))) =~= (rest.filter(
        keyed(n),
    ) + one.filter(keyed(n))) + done.filter(keyed(n)));
}

/// Two falling parts put together into one, equally new rows of the first part first.
fn merge(left: Vec<Keyed>, right: Vec<Keyed>) -> (r: Vec<Keyed>)
    requires
        falling(left@),
        falling(right@),
    ensures
        falling(r@),
        forall|n: u64| #[trigger] r@.filter(keyed(n)) == left@.filter(keyed(n)) + right@.filter(keyed(n)),
        forall|i: int| 0 <= i < r@.len() ==> left@.contains(#[trigger] r@[i]) || right@.contains(r@[i]),
{
    let ghost first = left@;
    let ghost second = right@;
    let mut a = left;
    let mut b = right;
    let mut back: Vec<Keyed> = Vec::new();
    let ghost mut done: Seq<Keyed> = Seq::empty();
    assert forall|n: u64| (a@.filter(keyed(n)) + b@.filter(keyed(n))) + #[trigger] done.filter(keyed(n))
        == first.filter(keyed(n)) + second.filter(keyed(n)) by {
        reveal(Seq::filter);
        assert(done.filter(keyed(n)) =~= Seq::<Keyed>::empty());
        assert((a@.filter(keyed(n)) + b@.filter(keyed(n))) + done.filter(keyed(n)) =~= a@.filter(
            keyed(n),
        ) + b@.filter(keyed(n)));
    }
    while a.len() > 0 || b.len() > 0
        invariant
            falling(a@),
            falling(b@),
            falling(done),
            back@ == done.reverse(),
            forall|i: int, j: int|
                0 <= i < a@.len() && 0 <= j < done.len() ==> (#[trigger] a@[i]).0 >= (#[trigger] done[j]).0,
            forall|i: int, j: int|
                0 <= i < b@.len() && 0 <= j < done.len() ==> (#[trigger] b@[i]).0 >= (#[trigger] done[j]).0,
            forall|n: u64|
                (a@.filter(keyed(n)) + b@.filter(keyed(n))) + #[trigger] done.filter(keyed(n))
                    == first.filter(keyed(n)) + second.filter(keyed(n)),
            forall|i: int| 0 <= i < a@.len() ==> first.contains(#[trigger] a@[i]),
            forall|i: int| 0 <= i < b@.len() ==> second.contains(#[trigger] b@[i]),
            forall|i: int|
                0 <= i < done.len() ==> first.contains(#[trigger] done[i]) || second.contains(done[i]),
        decreases a@.len() + b@.len(),
    {
        let from_left = b.len() == 0 || (a.len() > 0 && a[a.len() - 1].0 < b[b.len() - 1].0);
        let ghost a0 = a@;
        let ghost b0 = b@;
        let ghost done0 = done;
        let next = if from_left {
            a.pop()
        } else {
            b.pop()
        };
        match next {
            Some(row) => {
                proof {
                    done = seq![row] + done0;
                    if from_left {
                        assert(row == a0[a0.len() - 1]);
                        assert(a@ =~= a0.drop_last());
                        assert forall|i: int| 0 <= i < b0.len() implies (#[trigger] b0[i]).0 > row.0 by {
                            assert(b0[i].0 >= b0[b0.len() - 1].0);
                        }
                        assert forall|n: u64|
                            (a@.filter(keyed(n)) + b@.filter(keyed(n))) + #[trigger] done.filter(keyed(n))
                                == first.filter(keyed(n)) + second.filter(keyed(n)) by {
                            last_moves(a0, done0, n);
                            assert((a0.filter(keyed(n)) + b0.filter(keyed(n))) + done0.filter(keyed(n))
                                == first.filter(keyed(n)) + second.filter(keyed(n)));
                            let fa = a@.filter(keyed(n));
                            let fb = b0.filter(keyed(n));
                            let fd = done.filter(keyed(n));
                            if n == row.0 {
                                none_keyed(b0, n);
                                assert((fa + fb) + fd =~= fa + fd);
                                assert((a0.filter(keyed(n)) + fb) + done0.filter(keyed(n)) =~= a0.filter(
                                    keyed(n),
                                ) + done0.filter(keyed(n)));
                            } else {
                                let one = seq![row];
                                assert forall|i: int| 0 <= i < one.len() implies (#[trigger] one[i]).0
                                    != n by {}
                                none_keyed(one, n);
                                Seq::filter_distributes_over_add(one, done0, keyed(n));
                                assert(fd =~= done0.filter(keyed(n)));
                                Seq::filter_distributes_over_add(a@, one, keyed(n));
                                assert(a0 =~= a@ + one);
                                assert(a0.filter(keyed(n)) =~= fa);
                            }
                        }
                    } else {
                        assert(row == b0[b0.len() - 1]);
                        assert(b@ =~= b0.drop_last());
                        assert forall|i: int| 0 <= i < a0.len() implies (#[trigger] a0[i]).0 >= row.0 by {
                            assert(a0[i].0 >= a0[a0.len() - 1].0);
                        }
                        assert forall|n: u64|
                            (a@.filter(keyed(n)) + b@.filter(keyed(n))) + #[trigger] done.filter(keyed(n))
                                == first.filter(keyed(n)) + second.filter(keyed(n)) by {
                            last_moves(b0, done0, n);
                            assert((a0.filter(keyed(n)) + b0.filter(keyed(n))) + done0.filter(keyed(n))
                                == first.filter(keyed(n)) + second.filter(keyed(n)));
                            let fa = a0.filter(keyed(n));
                            assert((fa + b@.filter(keyed(n))) + done.filter(keyed(n)) =~= fa + (
                            b@.filter(keyed(n)) + done.filter(keyed(n))));
                            assert((fa + b0.filter(keyed(n))) + done0.filter(keyed(n)) =~= fa + (
                            b0.filter(keyed(n)) + done0.filter(keyed(n))));
                        }
                    }
                    assert(done.reverse() =~= done0.reverse().push(row));
                    assert forall|i: int, j: int| 0 <= i < j < done.len() implies (#[trigger] done[i]).0
                        >= (#[trigger] done[j]).0 by {
                        if i > 0 {
                            assert(done[i] == done0[i - 1]);
                        }
                        assert(done[j] == done0[j - 1]);
                    }
                    assert forall|i: int| 0 <= i < done.len() implies first.contains(#[trigger] done[i])
                        || second.contains(done[i]) by {
                        if i > 0 {
                            assert(done[i] == done0[i - 1]);
                        }
                    }
                }
                back.push(row);
            },
            None => {},
        }
    }
    let mut r: Vec<Keyed> = Vec::new();
    assert forall|n: u64| #[trigger] done.filter(keyed(n)) == first.filter(keyed(n)) + second.filter(
        keyed(n),
    ) by {
        reveal(Seq::filter);
        assert(a@.filter(keyed(n)) =~= Seq::<Keyed>::empty());
        assert(b@.filter(keyed(n)) =~= Seq::<Keyed>::empty());
        assert((a@.filter(keyed(n)) + b@.filter(keyed(n))) + done.filter(keyed(n)) =~= done.filter(
            keyed(n),
        ));
    }
    assert(back@ + r@.reverse() =~= done.reverse());
    while back.len() > 0
        invariant
            back@ + r@.reverse() == done.reverse(),
        decreases back@.len(),
    {
        let ghost back0 = back@;
        let ghost r0 = r@;
        match back.pop() {
            Some(row) => {
                r.push(row);
                assert(r@.reverse() =~= seq![row] + r0.reverse());
                assert(back@ + r@.reverse() =~= back0 + r0.reverse());
            },
            None => {},
        }
    }
    assert(r@.reverse() =~= done.reverse());
    assert(r@ =~= r@.reverse().reverse());
    assert(done =~= done.reverse().reverse());
    r
}

/// The rows, newest first, equally new ones as they stood.
fn sort(rows: Vec<Keyed>) -> (r: Vec<Keyed>)
    ensures
        falling(r@),
        forall|n: u64| #[trigger] r@.filter(keyed(n)) == rows@.filter(keyed(n)),
        forall|i: int| 0 <= i < r@.len() ==> rows@.contains(#[trigger] r@[i]),
    decreases rows@.len(),
{
    let ghost all = rows@;
    if rows.len() < 2 {
        return rows;
    }
    let middle: usize = rows.len() / 2;
    let mut front = rows;
    let back = front.split_off(middle);
    assert(front@ + back@ =~= all);
    let ghost f = front@;
    let ghost b = back@;
    let left = sort(front);
    let right = sort(back);
    let ghost l = left@;
    let ghost g = right@;
    let r = merge(left, right);
    proof {
        assert forall|n: u64| #[trigger] r@.filter(keyed(n)) == all.filter(keyed(n)) by {
            Seq::filter_distributes_over_add(f, b, keyed(n));
            assert(l.filter(keyed(n)) == f.filter(keyed(n)));
            assert(g.filter(keyed(n)) == b.filter(keyed(n)));
        }
        assert forall|i: int| 0 <= i < r@.len() implies all.contains(#[trigger] r@[i]) by {
            let row = r@[i];
            if l.contains(row) {
                let k = choose|k: int| 0 <= k < l.len() && l[k] == row;
                assert(f.contains(l[k]));
                let m = choose|m: int| 0 <= m < f.len() && f[m] == row;
                assert(all[m] == row);
            } else {
                let k = choose|k: int| 0 <= k < g.len() && g[k] == row;
                assert(b.contains(g[k]));
                let m = choose|m: int| 0 <= m < b.len() && b[m] == row;
                assert(all[f.len() + m] == row);
            }
        }
    }
    r
}

/// Every row stands beside how new it is.
spec fn keys_right(rows: Seq<Keyed>) -> bool {
    forall|i: int| 0 <= i < rows.len() ==> (#[trigger] rows[i]).0 == newness(rows[i].1@)
}

/// What the rows say.
spec fn bare(rows: Seq<Keyed>) -> Seq<JsonView> {
    rows.map_values(|row: Keyed| row.1@)
}

/// Where every row stands beside how new it is, picking by one is picking by the other.
proof fn picking(rows: Seq<Keyed>, n: u64)
    requires
        keys_right(rows),
    ensures
        as_new_as(bare(rows), n) == bare(rows.filter(keyed(n))),
    decreases rows.len(),
{
    reveal(Seq::filter);
    if rows.len() > 0 {
        let rest = rows.drop_last();
        assert forall|i: int| 0 <= i < rest.len() implies (#[trigger] rest[i]).0 == newness(
            rest[i].1@,
        ) by {
            assert(rest[i] == rows[i]);
        }
        picking(rest, n);
        assert(bare(rows).drop_last() =~= bare(rest));
        assert(rows[rows.len() - 1].0 == newness(rows[rows.len() - 1].1@));
        assert(bare(rows).last() == rows.last().1@);
    }
    assert(as_new_as(bare(rows), n) =~= bare(rows.filter(keyed(n))));
}

/// The rows restated, newest first. Anything but a list is no rows.
pub fn normalize_history(rows: &Json) -> (r: Json)
    ensures
        r@ is List,
        match rows@ {
            JsonView::List(given) => newest_first(
                r@->List_0,
                given.map_values(|row: JsonView| restated(row)),
            ),
            _ => r@->List_0 == Seq::<JsonView>::empty(),
        },
{
    let given = match rows {
        Json::List(given) => given,
        _ => {
            let none: Vec<Json> = Vec::new();
            assert(list_view(none@) =~= Seq::<JsonView>::empty());
            return Json::List(none);
        },
    };
    let ghost views = list_view(given@);
    let ghost goal = views.map_values(|row: JsonView| restated(row));
    let mut all: Vec<Keyed> = Vec::new();
    let mut i: usize = 0;
    proof {
        list_view_len(given@);
    }
    while i < given.len()
        invariant
            i <= given@.len(),
            views == list_view(given@),
            views.len() == given@.len(),
            goal == views.map_values(|row: JsonView| restated(row)),
            keys_right(all@),
            bare(all@) == goal.take(i as int),
        decreases given@.len() - i,
    {
        let ghost before = all@;
        proof {
            list_view_index(given@, i as int);
        }
        let row = restate(&given[i]);
        let ghost said = row@;
        assert(said == goal[i as int]);
        let height = row.unsigned_at("height");
        let key: u64 = if height == 0 {
            u64::MAX
        } else {
            height
        };
        all.push((key, row));
        assert forall|j: int| 0 <= j < all@.len() implies (#[trigger] all@[j]).0 == newness(all@[j].1@) by {
            if j < before.len() {
                assert(all@[j] == before[j]);
            }
        }
        assert(bare(all@) =~= bare(before).push(said));
        assert(goal.take(i + 1) =~= goal.take(i as int).push(said));
        i += 1;
    }
    assert(goal.take(i as int) =~= goal);
    let ghost unsorted = all@;
    let sorted = sort(all);
    let ghost by_age = sorted@;
    proof {
        assert forall|j: int| 0 <= j < by_age.len() implies (#[trigger] by_age[j]).0 == newness(
            by_age[j].1@,
        ) by {
            assert(unsorted.contains(by_age[j]));
            let k = choose|k: int| 0 <= k < unsorted.len() && unsorted[k] == by_age[j];
            assert(unsorted[k].0 == newness(unsorted[k].1@));
        }
        assert forall|n: u64| #[trigger] as_new_as(bare(by_age), n) == as_new_as(goal, n) by {
            picking(by_age, n);
            picking(unsorted, n);
            assert(by_age.filter(keyed(n)) == unsorted.filter(keyed(n)));
        }
        assert forall|a: int, b: int| 0 <= a < b < bare(by_age).len() implies newness(
            #[trigger] bare(by_age)[a],
        ) >= newness(#[trigger] bare(by_age)[b]) by {
            assert(by_age[a].0 >= by_age[b].0);
        }
    }
    let mut out: Vec<Json> = Vec::new();
    for keyed_row in it: sorted
        invariant
            it.seq() == by_age,
            list_view(out@) == bare(by_age.take(it.index() as int)),
    {
        let ghost before = out@;
        let (_, row) = keyed_row;
        out.push(row);
        assert(out@.drop_last() =~= before);
        assert(bare(by_age.take(it.index() + 1)) =~= bare(by_age.take(it.index() as int)).push(row@));
    }
    assert(by_age.take(by_age.len() as int) =~= by_age);
    Json::List(out)
}

// ---------------------------------------------------------------------------------------------
// Laws
// ---------------------------------------------------------------------------------------------

/// One more row, picked or not.
proof fn picking_last(rows: Seq<JsonView>, n: u64)
    requires
        rows.len() > 0,
    ensures
        as_new_as(rows, n) == if newness(rows.last()) == n {
            as_new_as(rows.drop_last(), n).push(rows.last())
        } else {
            as_new_as(rows.drop_last(), n)
        },
{
    reveal(Seq::filter);
}

/// Rows that are all newer than `n` hold none as new as `n`.
proof fn none_as_old(rows: Seq<JsonView>, n: u64)
    requires
        forall|i: int| 0 <= i < rows.len() ==> newness(#[trigger] rows[i]) > n,
    ensures
        as_new_as(rows, n).len() == 0,
    decreases rows.len(),
{
    if rows.len() > 0 {
        picking_last(rows, n);
        assert(newness(rows[rows.len() - 1]) > n);
        assert forall|i: int| 0 <= i < rows.drop_last().len() implies newness(
            #[trigger] rows.drop_last()[i],
        ) > n by {
            assert(rows.drop_last()[i] == rows[i]);
        }
        none_as_old(rows.drop_last(), n);
    } else {
        reveal(Seq::filter);
    }
}

/// The last of falling rows is the oldest, so that of two such lists with equal picks neither
/// ends older than the other.
proof fn ends_no_older(a: Seq<JsonView>, b: Seq<JsonView>)
    requires
        forall|i: int, j: int| 0 <= i < j < b.len() ==> newness(#[trigger] b[i]) >= newness(#[trigger] b[j]),
        forall|n: u64| #[trigger] as_new_as(a, n) == as_new_as(b, n),
        a.len() > 0,
    ensures
        b.len() > 0,
        newness(a.last()) >= newness(b.last()),
{
    let n = newness(a.last());
    picking_last(a, n);
    assert(as_new_as(a, n) == as_new_as(b, n));
    if b.len() == 0 || n < newness(b.last()) {
        assert forall|i: int| 0 <= i < b.len() implies newness(#[trigger] b[i]) > n by {
            if i < b.len() - 1 {
                assert(newness(b[i]) >= newness(b[b.len() - 1]));
            }
        }
        none_as_old(b, n);
    }
}

/// Falling rows are determined by the picks.
proof fn picks_determine(a: Seq<JsonView>, b: Seq<JsonView>)
    requires
        forall|i: int, j: int| 0 <= i < j < a.len() ==> newness(#[trigger] a[i]) >= newness(#[trigger] a[j]),
        forall|i: int, j: int| 0 <= i < j < b.len() ==> newness(#[trigger] b[i]) >= newness(#[trigger] b[j]),
        forall|n: u64| #[trigger] as_new_as(a, n) == as_new_as(b, n),
    ensures
        a == b,
    decreases a.len(),
{
    if a.len() == 0 {
        if b.len() > 0 {
            assert forall|n: u64| #[trigger] as_new_as(b, n) == as_new_as(a, n) by {
                assert(as_new_as(a, n) == as_new_as(b, n));
            }
            ends_no_older(b, a);
        }
        assert(a =~= b);
    } else {
        ends_no_older(a, b);
        assert forall|n: u64| #[trigger] as_new_as(b, n) == as_new_as(a, n) by {
            assert(as_new_as(a, n) == as_new_as(b, n));
        }
        ends_no_older(b, a);
        let last = newness(a.last());
        assert(as_new_as(a, last) == as_new_as(b, last));
        picking_last(a, last);
        picking_last(b, last);
        assert(as_new_as(a, last).last() == a.last());
        assert(as_new_as(b, last).last() == b.last());
        let c = a.drop_last();
        let d = b.drop_last();
        assert forall|i: int, j: int| 0 <= i < j < c.len() implies newness(#[trigger] c[i]) >= newness(
            #[trigger] c[j],
        ) by {
            assert(c[i] == a[i] && c[j] == a[j]);
        }
        assert forall|i: int, j: int| 0 <= i < j < d.len() implies newness(#[trigger] d[i]) >= newness(
            #[trigger] d[j],
        ) by {
            assert(d[i] == b[i] && d[j] == b[j]);
        }
        assert forall|n: u64| #[trigger] as_new_as(c, n) == as_new_as(d, n) by {
            picking_last(a, n);
            picking_last(b, n);
            assert(as_new_as(a, n) == as_new_as(b, n));
            if n == last {
                assert(as_new_as(c, n) =~= as_new_as(a, n).drop_last());
                assert(as_new_as(d, n) =~= as_new_as(b, n).drop_last());
            }
        }
        picks_determine(c, d);
        assert(a =~= c.push(a.last()));
        assert(b =~= d.push(b.last()));
    }
}

/// Law: the rows have one order that is newest first.
pub proof fn one_order(a: Seq<JsonView>, b: Seq<JsonView>, rows: Seq<JsonView>)
    requires
        newest_first(a, rows),
        newest_first(b, rows),
    ensures
        a == b,
{
    assert forall|n: u64| #[trigger] as_new_as(a, n) == as_new_as(b, n) by {
        assert(as_new_as(a, n) == as_new_as(rows, n));
        assert(as_new_as(b, n) == as_new_as(rows, n));
    }
    picks_determine(a, b);
}

/// A row is picked by how new it is.
proof fn picked(rows: Seq<JsonView>, row: JsonView)
    ensures
        as_new_as(rows, newness(row)).contains(row) <==> rows.contains(row),
    decreases rows.len(),
{
    let n = newness(row);
    if rows.len() == 0 {
        reveal(Seq::filter);
        assert(as_new_as(rows, n) =~= Seq::<JsonView>::empty());
    } else {
        let rest = rows.drop_last();
        picking_last(rows, n);
        picked(rest, row);
        let part = as_new_as(rest, n);
        let all = as_new_as(rows, n);
        if rows.contains(row) {
            let k = choose|k: int| 0 <= k < rows.len() && rows[k] == row;
            if k < rest.len() {
                assert(rest[k] == row);
                let m = choose|m: int| 0 <= m < part.len() && part[m] == row;
                assert(all[m] == row);
            } else {
                assert(all.last() == row);
                assert(all[all.len() - 1] == row);
            }
        }
        if all.contains(row) {
            let m = choose|m: int| 0 <= m < all.len() && all[m] == row;
            if m < part.len() {
                assert(part[m] == row);
                let k = choose|k: int| 0 <= k < rest.len() && rest[k] == row;
                assert(rows[k] == row);
            } else {
                assert(rows[rows.len() - 1] == row);
            }
        }
    }
}

/// Law: no row is lost and none is made up.
pub proof fn the_same_rows(out: Seq<JsonView>, rows: Seq<JsonView>, row: JsonView)
    requires
        newest_first(out, rows),
    ensures
        out.contains(row) <==> rows.contains(row),
{
    assert(as_new_as(out, newness(row)) == as_new_as(rows, newness(row)));
    picked(out, row);
    picked(rows, row);
}

/// Law: a pending row stands above every row that has a height, up to the last height there is,
/// and a row of greater height above one of smaller height.
pub proof fn pending_on_top(out: Seq<JsonView>, rows: Seq<JsonView>, i: int, j: int)
    requires
        newest_first(out, rows),
        0 <= i < out.len(),
        0 <= j < out.len(),
        0 < out[j].unsigned_at("height"@) < u64::MAX,
        out[i].unsigned_at("height"@) == 0 || out[i].unsigned_at("height"@) > out[j].unsigned_at(
            "height"@,
        ),
    ensures
        i < j,
{
    if j < i {
        assert(newness(out[j]) >= newness(out[i]));
    }
}

/// A detail that a restated row has.
pub open spec fn is_detail(field: Seq<char>) -> bool {
    ||| field == "txid"@
    ||| field == "direction"@
    ||| field == "amount"@
    ||| field == "amountXmr"@
    ||| field == "fee"@
    ||| field == "feeXmr"@
    ||| field == "height"@
    ||| field == "confirmations"@
    ||| field == "timestamp"@
    ||| field == "pending"@
    ||| field == "failed"@
    ||| field == "unlockTime"@
    ||| field == "account"@
    ||| field == "paymentId"@
    ||| field == "description"@
    ||| field == "subaddrIndex"@
    ||| field == "coinbase"@
    ||| field == "destinations"@
}

/// Law: a restated row has every detail and nothing else, and what the engine leaves out is
/// there, but never as null.
pub proof fn every_detail_is_there(row: JsonView, field: Seq<char>)
    ensures
        restated(row).get(field) is Some <==> is_detail(field),
        is_detail(field) && row.get(field) is None ==> restated(row).get(field)->0 !is Null,
{
}

/// Law: what the engine gives of a detail is carried as it is, but for the amount and the fee,
/// which are texts of atomic units and stand there in XMR too.
pub proof fn every_detail_is_carried(row: JsonView, field: Seq<char>)
    ensures
        is_detail(field) && row.get(field) is Some && field != "amount"@ && field != "amountXmr"@
            && field != "fee"@ && field != "feeXmr"@ ==> restated(row).get(field) == row.get(field),
        restated(row).get("amount"@) == Some(JsonView::Text(row.text_or("amount"@, "0"@))),
        restated(row).get("amountXmr"@) == Some(
            JsonView::Text(shown(row.text_or("amount"@, "0"@))),
        ),
        restated(row).get("fee"@) == Some(JsonView::Text(row.text_or("fee"@, "0"@))),
        restated(row).get("feeXmr"@) == Some(JsonView::Text(shown(row.text_or("fee"@, "0"@)))),
{
    reveal_strlit("amount");
    reveal_strlit("amountXmr");
    reveal_strlit("fee");
    reveal_strlit("feeXmr");
    reveal_strlit("height");
    reveal_strlit("confirmations");
    reveal_strlit("timestamp");
    reveal_strlit("pending");
    reveal_strlit("failed");
    reveal_strlit("unlockTime");
    reveal_strlit("account");
    reveal_strlit("paymentId");
    reveal_strlit("description");
    reveal_strlit("subaddrIndex");
    reveal_strlit("coinbase");
    reveal_strlit("destinations");
    assert("amount"@.len() == 6 && "fee"@.len() == 3 && "feeXmr"@.len() == 6 && "amountXmr"@.len() == 9);
    assert("height"@.len() == 6 && "confirmations"@.len() == 13 && "timestamp"@.len() == 9);
    assert("pending"@.len() == 7 && "failed"@.len() == 6 && "unlockTime"@.len() == 10);
    assert("account"@.len() == 7 && "paymentId"@.len() == 9 && "description"@.len() == 11);
    assert("subaddrIndex"@.len() == 12 && "coinbase"@.len() == 8 && "destinations"@.len() == 12);
    assert("amountXmr"@[0] == 'a' && "amountXmr"@[6] == 'X');
    assert("timestamp"@[0] == 't' && "paymentId"@[0] == 'p');
    assert("amount"@[0] == 'a' && "height"@[0] == 'h' && "failed"@[0] == 'f' && "feeXmr"@[0] == 'f');
    assert("feeXmr"@[1] == 'e' && "failed"@[1] == 'a');
}

/// How often a row stands among the rows, it stands among those that are as new.
proof fn counted_by_newness(rows: Seq<JsonView>, row: JsonView)
    ensures
        rows.to_multiset().count(row) == as_new_as(rows, newness(row)).to_multiset().count(row),
    decreases rows.len(),
{
    let n = newness(row);
    if rows.len() == 0 {
        reveal(Seq::filter);
        assert(as_new_as(rows, n) =~= rows);
    } else {
        let rest = rows.drop_last();
        counted_by_newness(rest, row);
        picking_last(rows, n);
        vstd::seq_lib::to_multiset_build(rest, rows.last());
        vstd::seq_lib::to_multiset_build(as_new_as(rest, n), rows.last());
        assert(rest.push(rows.last()) =~= rows);
    }
}

/// Law: every row is told, as often as it was given, and no other.
pub proof fn every_row_is_told(out: Seq<JsonView>, rows: Seq<JsonView>)
    requires
        newest_first(out, rows),
    ensures
        out.len() == rows.len(),
        out.to_multiset() == rows.to_multiset(),
{
    assert forall|row: JsonView| out.to_multiset().count(row) == #[trigger] rows.to_multiset().count(
        row,
    ) by {
        counted_by_newness(out, row);
        counted_by_newness(rows, row);
        assert(as_new_as(out, newness(row)) == as_new_as(rows, newness(row)));
    }
    assert(out.to_multiset() =~= rows.to_multiset());
    vstd::seq_lib::to_multiset_len(out);
    vstd::seq_lib::to_multiset_len(rows);
}

/// Law: rows of one height stand as they stood; so do those without a height, beside those of the
/// last height there is.
pub proof fn rows_of_one_height_stay(out: Seq<JsonView>, rows: Seq<JsonView>, height: u64)
    requires
        newest_first(out, rows),
    ensures
        0 < height < u64::MAX ==> out.filter(
            |row: JsonView| row.unsigned_at("height"@) == height,
        ) == rows.filter(|row: JsonView| row.unsigned_at("height"@) == height),
        out.filter(
            |row: JsonView| row.unsigned_at("height"@) == 0 || row.unsigned_at("height"@) == u64::MAX,
        ) == rows.filter(
            |row: JsonView| row.unsigned_at("height"@) == 0 || row.unsigned_at("height"@) == u64::MAX,
        ),
{
    assert(as_new_as(out, u64::MAX) == as_new_as(rows, u64::MAX));
    let newest = |row: JsonView| newness(row) == u64::MAX;
    assert(newest =~= (|row: JsonView|
        row.unsigned_at("height"@) == 0 || row.unsigned_at("height"@) == u64::MAX));
    if 0 < height < u64::MAX {
        assert(as_new_as(out, height) == as_new_as(rows, height));
        let alike = |row: JsonView| newness(row) == height;
        assert(alike =~= (|row: JsonView| row.unsigned_at("height"@) == height));
    }
}

/// Law: an amount is shown in XMR where it is a number of atomic units, and else as nothing.
pub proof fn what_is_shown_of_an_amount(atomic: Seq<char>)
    ensures
        u64_of(atomic) is Some ==> parsed(shown(atomic)) == Some(numeral(u64_of(atomic)->0 as nat))
            && formatted(atomic) == Some(shown(atomic)),
        u64_of(atomic) is None ==> shown(atomic).len() == 0,
{
    if u64_of(atomic) is Some {
        parse_undoes_format(atomic);
    }
}

/// Law: what stands for each detail that the engine leaves out: an incoming transfer, no text, no
/// number, no mark, and no destination.
pub proof fn what_stands_for_a_missing_detail(row: JsonView)
    ensures
        row.get("txid"@) is None ==> restated(row).get("txid"@) == Some(
            JsonView::Text(""@),
        ),
        row.get("direction"@) is None ==> restated(row).get("direction"@) == Some(
            JsonView::Text("in"@),
        ),
        row.get("height"@) is None ==> restated(row).get("height"@) == Some(
            JsonView::Unsigned(0),
        ),
        row.get("confirmations"@) is None ==> restated(row).get("confirmations"@) == Some(
            JsonView::Unsigned(0),
        ),
        row.get("timestamp"@) is None ==> restated(row).get("timestamp"@) == Some(
            JsonView::Unsigned(0),
        ),
        row.get("pending"@) is None ==> restated(row).get("pending"@) == Some(
            JsonView::Bool(false),
        ),
        row.get("failed"@) is None ==> restated(row).get("failed"@) == Some(
            JsonView::Bool(false),
        ),
        row.get("unlockTime"@) is None ==> restated(row).get("unlockTime"@) == Some(
            JsonView::Unsigned(0),
        ),
        row.get("account"@) is None ==> restated(row).get("account"@) == Some(
            JsonView::Unsigned(0),
        ),
        row.get("paymentId"@) is None ==> restated(row).get("paymentId"@) == Some(
            JsonView::Text(""@),
        ),
        row.get("description"@) is None ==> restated(row).get("description"@) == Some(
            JsonView::Text(""@),
        ),
        row.get("subaddrIndex"@) is None ==> restated(row).get("subaddrIndex"@) == Some(
            JsonView::Text(""@),
        ),
        row.get("coinbase"@) is None ==> restated(row).get("coinbase"@) == Some(
            JsonView::Bool(false),
        ),
        row.get("destinations"@) is None ==> restated(row).get("destinations"@) == Some(
            JsonView::List(Seq::empty()),
        ),
{
    reveal_strlit("txid");
    reveal_strlit("direction");
    reveal_strlit("height");
    reveal_strlit("confirmations");
    reveal_strlit("timestamp");
    reveal_strlit("pending");
    reveal_strlit("failed");
    reveal_strlit("unlockTime");
    reveal_strlit("account");
    reveal_strlit("paymentId");
    reveal_strlit("description");
    reveal_strlit("subaddrIndex");
    reveal_strlit("coinbase");
    reveal_strlit("destinations");
    reveal_strlit("amount");
    reveal_strlit("amountXmr");
    reveal_strlit("fee");
    reveal_strlit("feeXmr");
    assert("txid"@.len() == 4);
    assert("direction"@.len() == 9);
    assert("height"@.len() == 6);
    assert("confirmations"@.len() == 13);
    assert("timestamp"@.len() == 9);
    assert("pending"@.len() == 7);
    assert("failed"@.len() == 6);
    assert("unlockTime"@.len() == 10);
    assert("account"@.len() == 7);
    assert("paymentId"@.len() == 9);
    assert("description"@.len() == 11);
    assert("subaddrIndex"@.len() == 12);
    assert("coinbase"@.len() == 8);
    assert("destinations"@.len() == 12);
    assert("amount"@.len() == 6);
    assert("amountXmr"@.len() == 9);
    assert("fee"@.len() == 3);
    assert("feeXmr"@.len() == 6);
    assert("direction"@[0] != "timestamp"@[0]);
    assert("direction"@[0] != "paymentId"@[0]);
    assert("direction"@[0] != "amountXmr"@[0]);
    assert("height"@[0] != "failed"@[0]);
    assert("height"@[0] != "amount"@[0]);
    assert("height"@[0] != "feeXmr"@[0]);
    assert("timestamp"@[0] != "paymentId"@[0]);
    assert("timestamp"@[0] != "amountXmr"@[0]);
    assert("pending"@[0] != "account"@[0]);
    assert("failed"@[0] != "amount"@[0]);
    assert("failed"@[1] != "feeXmr"@[1]);
    assert("paymentId"@[0] != "amountXmr"@[0]);
    assert("subaddrIndex"@[0] != "destinations"@[0]);
    assert("amount"@[0] != "feeXmr"@[0]);
}

} // verus!
