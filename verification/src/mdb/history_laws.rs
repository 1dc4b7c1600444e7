//! What a symbol file says of all that its writer was told.

use vstd::prelude::*;

use crate::error::ErrorKind;
use crate::mdb::lines;
use crate::mdb::lines::LineEntry;
use crate::mdb::lines_laws;
use crate::mdb::reader;
use crate::mdb::reader::{LocalView, MdbView, MethodEntry};
use crate::mdb::writer;
use crate::mdb::writer::{MdbModel, MethodModel};
use crate::mdb::writer_laws;
use crate::token::Token;

verus! {

/// A call on a writer. Lines are what `add_method_lines` and
/// `mark_sequence_points` give it.
pub enum WriterCall {
    Source(Seq<char>),
    Unit(Seq<u32>),
    Lines(Token, u32, i32, Seq<(i32, i32, u32)>),
    Local(Token, LocalView),
}

/// What a call makes of a writer.
pub open spec fn after_call(m: MdbModel, call: WriterCall) -> MdbModel {
    match call {
        WriterCall::Source(path) => m.with_source(path),
        WriterCall::Unit(files) => m.with_unit(files),
        WriterCall::Lines(token, unit, namespace_id, points) => m.marked(
            token,
            unit,
            namespace_id,
            points,
        ),
        WriterCall::Local(token, local) => match writer::method_place(m.methods, token, 0) {
            Some(k) => m.with_local(k, local),
            None => m,
        },
    }
}

/// What the calls make of a fresh writer.
pub open spec fn after_calls(guid: Seq<u8>, calls: Seq<WriterCall>) -> MdbModel
    decreases calls.len(),
{
    if calls.len() == 0 {
        MdbModel {
            guid,
            sources: Seq::empty(),
            units: Seq::empty(),
            methods: Seq::empty(),
        }
    } else {
        after_call(after_calls(guid, calls.drop_last()), calls.last())
    }
}

/// All the points that the calls give a method, in their order.
pub open spec fn given_points(calls: Seq<WriterCall>, token: Token) -> Seq<(i32, i32, u32)>
    decreases calls.len(),
{
    if calls.len() == 0 {
        Seq::empty()
    } else {
        let front = given_points(calls.drop_last(), token);
        match calls.last() {
            WriterCall::Lines(t, _, _, points) if t == token => front + points,
            _ => front,
        }
    }
}

/// The unit and the namespace that a method is first given lines with.
pub open spec fn registered(calls: Seq<WriterCall>, token: Token) -> Option<(u32, i32)>
    decreases calls.len(),
{
    if calls.len() == 0 {
        None
    } else {
        match registered(calls.drop_last(), token) {
            Some(first) => Some(first),
            None => match calls.last() {
                WriterCall::Lines(t, unit, namespace_id, _) if t == token => Some(
                    (unit, namespace_id),
                ),
                _ => None,
            },
        }
    }
}

/// No two methods have the same token.
pub open spec fn distinct_tokens(methods: Seq<MethodModel>) -> bool {
    forall|i: int, j: int|
        #![trigger methods[i], methods[j]]
        0 <= i < j < methods.len() ==> methods[i].token != methods[j].token
}

/// The method is what the calls say of its token.
pub open spec fn told(m: MethodModel, calls: Seq<WriterCall>) -> bool {
    let points = given_points(calls, m.token);
    &&& registered(calls, m.token) == Some((m.compile_unit, m.namespace_id))
    &&& m.lines == writer::with_points(Seq::empty(), points, points.len())
}

/// Adding points in two steps is adding them in one.
proof fn points_in_steps(
    table: Seq<LineEntry>,
    first: Seq<(i32, i32, u32)>,
    then_more: Seq<(i32, i32, u32)>,
    n: nat,
)
    requires
        n <= then_more.len(),
    ensures
        writer::with_points(
            writer::with_points(table, first, first.len()),
            then_more,
            n,
        ) == writer::with_points(table, first + then_more, first.len() + n),
    decreases n,
{
    let all = first + then_more;
    if n > 0 {
        points_in_steps(table, first, then_more, (n - 1) as nat);
        assert(all[first.len() + n - 1] == then_more[n - 1]);
    } else {
        same_points(table, first, all, first.len());
    }
}

proof fn same_points(
    table: Seq<LineEntry>,
    a: Seq<(i32, i32, u32)>,
    b: Seq<(i32, i32, u32)>,
    n: nat,
)
    requires
        n <= a.len(),
        n <= b.len(),
        forall|k: int| 0 <= k < n ==> a[k] == b[k],
    ensures
        writer::with_points(table, a, n) == writer::with_points(table, b, n),
    decreases n,
{
    if n > 0 {
        same_points(table, a, b, (n - 1) as nat);
        assert(a[n - 1] == b[n - 1]);
    }
}

proof fn place_found(methods: Seq<MethodModel>, token: Token, i: int)
    requires
        0 <= i,
    ensures
        match writer::method_place(methods, token, i) {
            Some(k) => i <= k < methods.len() && methods[k].token == token,
            None => forall|j: int| i <= j < methods.len() ==> (#[trigger] methods[j]).token != token,
        },
    decreases methods.len() - i,
{
    if i < methods.len() && methods[i].token != token {
        place_found(methods, token, i + 1);
    }
}

proof fn place_of_last(methods: Seq<MethodModel>, m: MethodModel, i: int)
    requires
        0 <= i <= methods.len(),
        writer::method_place(methods, m.token, i) is None,
    ensures
        writer::method_place(methods.push(m), m.token, i) == Some(methods.len() as int),
    decreases methods.len() - i,
{
    if i < methods.len() {
        place_of_last(methods, m, i + 1);
    }
}

/// Lines for a token leave the other methods as they were told of.
proof fn told_by_others(m: MethodModel, calls: Seq<WriterCall>)
    requires
        calls.len() > 0,
        told(m, calls.drop_last()),
        calls.last() matches WriterCall::Lines(t, _, _, _) ==> t != m.token,
    ensures
        told(m, calls),
{
}

proof fn lines_told(guid: Seq<u8>, calls: Seq<WriterCall>)
    requires
        calls.len() > 0,
        calls.last() is Lines,
        ({
            let m = after_calls(guid, calls.drop_last());
            &&& distinct_tokens(m.methods)
            &&& forall|k: int|
                0 <= k < m.methods.len() ==> told(#[trigger] m.methods[k], calls.drop_last())
            &&& forall|t: Token|
                #![trigger registered(calls.drop_last(), t)]
                registered(calls.drop_last(), t) is Some ==> writer::method_place(
                    m.methods,
                    t,
                    0,
                ) is Some
        }),
    ensures
        ({
            let m = after_calls(guid, calls);
            &&& distinct_tokens(m.methods)
            &&& forall|k: int| 0 <= k < m.methods.len() ==> told(#[trigger] m.methods[k], calls)
        }),
{
    let before = after_calls(guid, calls.drop_last());
    let m = after_calls(guid, calls);
    if let WriterCall::Lines(token, unit, namespace_id, points) = calls.last() {
        let methods = before.with_method(token, unit, namespace_id);
        let k = writer::method_place(methods, token, 0)->Some_0;
        let earlier = given_points(calls.drop_last(), token);
        place_found(before.methods, token, 0);
        if writer::method_place(before.methods, token, 0) is None {
            place_of_last(before.methods, methods.last(), 0);
            assert(registered(calls.drop_last(), token) is None);
            never_given(calls.drop_last(), token);
            assert(writer::with_points(Seq::empty(), earlier, 0) == Seq::<LineEntry>::empty());
        } else {
            assert(told(before.methods[k], calls.drop_last()));
        }
        assert(methods[k].lines == writer::with_points(Seq::empty(), earlier, earlier.len()));
        points_in_steps(Seq::empty(), earlier, points, points.len());
        assert forall|j: int| 0 <= j < m.methods.len() implies told(
            #[trigger] m.methods[j],
            calls,
        ) by {
            if j != k {
                assert(m.methods[j] == before.methods[j]);
                told_by_others(before.methods[j], calls);
            }
        }
        assert forall|i: int, j: int|
            #![trigger m.methods[i], m.methods[j]]
            0 <= i < j < m.methods.len() implies m.methods[i].token != m.methods[j].token by {
            assert(m.methods[i].token == methods[i].token);
            assert(m.methods[j].token == methods[j].token);
            if j < before.methods.len() {
                assert(before.methods[i].token != before.methods[j].token);
            } else {
                assert(before.methods[i].token != token);
            }
        }
    }
}

/// A method that was never registered was given no points.
proof fn never_given(calls: Seq<WriterCall>, token: Token)
    requires
        registered(calls, token) is None,
    ensures
        given_points(calls, token) == Seq::<(i32, i32, u32)>::empty(),
    decreases calls.len(),
{
    if calls.len() > 0 {
        never_given(calls.drop_last(), token);
    }
}

/// A writer holds each token that it was told of once, with the unit and the
/// namespace of its first registration and the points of all its calls.
pub proof fn writer_keeps_what_it_is_told(guid: Seq<u8>, calls: Seq<WriterCall>)
    ensures
        ({
            let m = after_calls(guid, calls);
            &&& m.guid == guid
            &&& distinct_tokens(m.methods)
            &&& forall|k: int| 0 <= k < m.methods.len() ==> told(#[trigger] m.methods[k], calls)
            &&& forall|t: Token|
                #![trigger registered(calls, t)]
                registered(calls, t) is Some ==> writer::method_place(m.methods, t, 0) is Some
        }),
    decreases calls.len(),
{
    let m = after_calls(guid, calls);
    if calls.len() > 0 {
        let before = after_calls(guid, calls.drop_last());
        writer_keeps_what_it_is_told(guid, calls.drop_last());
        match calls.last() {
            WriterCall::Lines(token, unit, namespace_id, points) => {
                lines_told(guid, calls);
                assert forall|t: Token| #![trigger registered(calls, t)] registered(
                    calls,
                    t,
                ) is Some implies writer::method_place(m.methods, t, 0) is Some by {
                    place_found(m.methods, t, 0);
                    marked_is_there(before, token, unit, namespace_id, points, t);
                    assert(registered(calls.drop_last(), t) is Some || t == token);
                }
            },
            WriterCall::Local(token, local) => {
                place_found(before.methods, token, 0);
                assert forall|k: int| 0 <= k < m.methods.len() implies told(
                    #[trigger] m.methods[k],
                    calls,
                ) by {
                    assert(told(before.methods[k], calls.drop_last()));
                    assert(m.methods[k].token == before.methods[k].token);
                    assert(m.methods[k].lines == before.methods[k].lines);
                }
                assert forall|t: Token| #![trigger registered(calls, t)] registered(
                    calls,
                    t,
                ) is Some implies writer::method_place(m.methods, t, 0) is Some by {
                    assert(registered(calls.drop_last(), t) is Some);
                    same_tokens_found(before.methods, m.methods, t);
                }
                assert forall|i: int, j: int|
                    #![trigger m.methods[i], m.methods[j]]
                    0 <= i < j < m.methods.len() implies m.methods[i].token
                    != m.methods[j].token by {
                    assert(before.methods[i].token != before.methods[j].token);
                }
            },
            _ => {
                assert(m.methods == before.methods);
                assert forall|k: int| 0 <= k < m.methods.len() implies told(
                    #[trigger] m.methods[k],
                    calls,
                ) by {
                    told_by_others(before.methods[k], calls);
                }
                assert forall|t: Token| #![trigger registered(calls, t)] registered(
                    calls,
                    t,
                ) is Some implies writer::method_place(m.methods, t, 0) is Some by {
                    assert(registered(calls.drop_last(), t) is Some);
                }
            },
        }
    }
}

proof fn marked_is_there(
    before: MdbModel,
    token: Token,
    unit: u32,
    namespace_id: i32,
    points: Seq<(i32, i32, u32)>,
    t: Token,
)
    ensures
        writer::method_place(before.methods, t, 0) is Some || t == token ==> writer::method_place(
            before.marked(token, unit, namespace_id, points).methods,
            t,
            0,
        ) is Some,
{
    let methods = before.with_method(token, unit, namespace_id);
    place_found(before.methods, t, 0);
    place_found(before.methods, token, 0);
    if writer::method_place(before.methods, token, 0) is None {
        place_of_last(before.methods, methods.last(), 0);
    }
    let after = before.marked(token, unit, namespace_id, points).methods;
    place_found(methods, token, 0);
    place_found(after, t, 0);
    if let Some(k) = writer::method_place(before.methods, t, 0) {
        assert(after[k].token == t);
    }
    let k = writer::method_place(methods, token, 0)->Some_0;
    assert(after[k].token == token);
}

proof fn same_tokens_found(a: Seq<MethodModel>, b: Seq<MethodModel>, t: Token)
    requires
        a.len() == b.len(),
        forall|k: int| 0 <= k < a.len() ==> (#[trigger] a[k]).token == b[k].token,
        writer::method_place(a, t, 0) is Some,
    ensures
        writer::method_place(b, t, 0) is Some,
{
    place_found(a, t, 0);
    place_found(b, t, 0);
    let k = writer::method_place(a, t, 0)->Some_0;
    assert(b[k].token == a[k].token);
}

/// A table holds the points: its IL offsets go up, they are those of the
/// points and no others, and each stands with the largest line given for it.
pub open spec fn holds_points(table: Seq<LineEntry>, points: Seq<(i32, i32, u32)>) -> bool {
    &&& writer_laws::ascending(table)
    &&& forall|k: int|
        0 <= k < table.len() ==> largest_of((#[trigger] table[k]), points)
    &&& forall|j: int| 0 <= j < points.len() ==> is_held(table, (#[trigger] points[j]).0)
}

/// The table has a point at the IL offset.
pub open spec fn is_held(table: Seq<LineEntry>, offset: i32) -> bool {
    exists|k: int| 0 <= k < table.len() && (#[trigger] table[k]).offset == offset
}

/// The point is one of those given, and none given at its offset has a larger
/// line.
pub open spec fn largest_of(e: LineEntry, points: Seq<(i32, i32, u32)>) -> bool {
    &&& exists|j: int|
        0 <= j < points.len() && #[trigger] points[j] == (e.offset, e.row, e.file)
    &&& forall|j: int|
        0 <= j < points.len() && (#[trigger] points[j]).0 == e.offset ==> points[j].1 <= e.row
}

/// A point that was held is the largest after another one was added that is not
/// larger.
proof fn held_stays_largest(given: Seq<(i32, i32, u32)>, e: LineEntry, held: LineEntry)
    requires
        largest_of(held, given),
        held.offset == e.offset ==> e.row <= held.row,
    ensures
        largest_of(held, given.push((e.offset, e.row, e.file))),
{
    let now = given.push((e.offset, e.row, e.file));
    let j = choose|j: int|
        0 <= j < given.len() && #[trigger] given[j] == (held.offset, held.row, held.file);
    assert(now[j] == given[j]);
    assert forall|j: int|
        0 <= j < now.len() && (#[trigger] now[j]).0 == held.offset implies now[j].1
        <= held.row by {
        if j < given.len() {
            assert(now[j] == given[j]);
        }
    }
}

/// A point that is added in its place is the largest.
proof fn added_is_largest(table: Seq<LineEntry>, given: Seq<(i32, i32, u32)>, e: LineEntry)
    requires
        holds_points(table, given),
        no_lower(table, e),
    ensures
        largest_of(e, given.push((e.offset, e.row, e.file))),
{
    let now = given.push((e.offset, e.row, e.file));
    assert(now[given.len() as int] == (e.offset, e.row, e.file));
    assert forall|j: int|
        0 <= j < now.len() && (#[trigger] now[j]).0 == e.offset implies now[j].1 <= e.row by {
        if j < given.len() {
            assert(now[j] == given[j]);
            assert(is_held(table, given[j].0));
            let i = choose|i: int|
                0 <= i < table.len() && (#[trigger] table[i]).offset == given[j].0;
            assert(largest_of(table[i], given));
        }
    }
}

/// A table that holds points holds one more after it was added.
proof fn one_more_is_held(table: Seq<LineEntry>, given: Seq<(i32, i32, u32)>, e: LineEntry)
    requires
        holds_points(table, given),
        writer_laws::ascending(writer::with_point(table, e)),
    ensures
        holds_points(writer::with_point(table, e), given.push((e.offset, e.row, e.file))),
{
    let after = writer::with_point(table, e);
    let now = given.push((e.offset, e.row, e.file));
    offsets_stay_held(table, e);
    assert forall|k: int| 0 <= k < after.len() implies largest_of(#[trigger] after[k], now) by {
        point_is_added_or_kept(table, e, k);
        if table.contains(after[k]) && (after[k].offset == e.offset ==> e.row <= after[k].row) {
            let i = choose|i: int| 0 <= i < table.len() && table[i] == after[k];
            assert(largest_of(table[i], given));
            held_stays_largest(given, e, after[k]);
        } else {
            added_is_largest(table, given, e);
        }
    }
    assert forall|j: int| 0 <= j < now.len() implies is_held(after, (#[trigger] now[j]).0) by {
        if j < given.len() {
            assert(given[j] == now[j]);
            assert(is_held(table, given[j].0));
            let i = choose|i: int|
                0 <= i < table.len() && (#[trigger] table[i]).offset == given[j].0;
            assert(is_held(after, table[i].offset));
        }
    }
}

/// However points are given to a method, in one call or in many, it holds
/// exactly their IL offsets, each once, with the largest line given for it.
pub proof fn given_points_are_held(points: Seq<(i32, i32, u32)>, n: nat)
    requires
        n <= points.len(),
    ensures
        holds_points(writer::with_points(Seq::empty(), points, n), points.take(n as int)),
    decreases n,
{
    if n > 0 {
        let before = writer::with_points(Seq::empty(), points, (n - 1) as nat);
        let given = points.take(n - 1);
        given_points_are_held(points, (n - 1) as nat);
        writer_laws::added_points_ascend(Seq::empty(), points, n);
        let (offset, row, file) = points[n - 1];
        one_more_is_held(before, given, LineEntry { file, row, column: (-1) as i32, offset });
        assert(points.take(n as int) =~= given.push(points[n - 1]));
    } else {
        assert(writer::with_points(Seq::empty(), points, 0) =~= Seq::<LineEntry>::empty());
    }
}

/// The point is the one that was added, and no lower than what it replaced, or
/// one that was there, and no lower than the one that was added.
spec fn added_or_kept(table: Seq<LineEntry>, e: LineEntry, held: LineEntry) -> bool {
    ||| held == e && no_lower(table, e)
    ||| table.contains(held) && (held.offset == e.offset ==> e.row <= held.row)
}

/// The point is no lower than any at its offset.
spec fn no_lower(table: Seq<LineEntry>, e: LineEntry) -> bool {
    forall|i: int|
        0 <= i < table.len() && (#[trigger] table[i]).offset == e.offset ==> table[i].row <= e.row
}

proof fn point_is_added_or_kept(table: Seq<LineEntry>, e: LineEntry, k: int)
    requires
        writer_laws::ascending(table),
        0 <= k < writer::with_point(table, e).len(),
    ensures
        added_or_kept(table, e, writer::with_point(table, e)[k]),
{
    let after = writer::with_point(table, e);
    writer_laws::place_splits(table, e.offset, 0);
    let p = writer::line_place(table, e.offset, 0);
    if p < table.len() && table[p].offset == e.offset {
        if e.row > table[p].row && k == p {
            assert forall|i: int|
                0 <= i < table.len() && (#[trigger] table[i]).offset == e.offset implies table[i].row
                <= e.row by {
                if i != p {
                    assert(table[i].offset != table[p].offset);
                }
            }
        } else {
            assert(table[k] == after[k]);
            assert(table.contains(after[k]));
            if k != p {
                assert(table[k].offset != table[p].offset);
            }
        }
    } else {
        absent_at(table, e.offset, p);
        if k < p {
            assert(table[k] == after[k]);
            assert(table.contains(after[k]));
        } else if k == p {
            assert(after[k] == e);
        } else {
            assert(table[k - 1] == after[k]);
            assert(table.contains(after[k]));
        }
    }
}

/// Where the place of an offset does not hold it, nothing does.
proof fn absent_at(table: Seq<LineEntry>, offset: i32, p: int)
    requires
        writer_laws::ascending(table),
        0 <= p <= table.len(),
        forall|j: int| 0 <= j < p ==> (#[trigger] table[j]).offset < offset,
        p < table.len() ==> table[p].offset > offset,
    ensures
        forall|i: int| 0 <= i < table.len() ==> (#[trigger] table[i]).offset != offset,
{
    assert forall|i: int| 0 <= i < table.len() implies (#[trigger] table[i]).offset != offset by {
        if i > p {
            assert(table[p].offset < table[i].offset);
        }
    }
}

/// Adding a point loses no offset.
proof fn offsets_stay_held(table: Seq<LineEntry>, e: LineEntry)
    ensures
        forall|i: int|
            0 <= i < table.len() ==> is_held(
                writer::with_point(table, e),
                (#[trigger] table[i]).offset,
            ),
        is_held(writer::with_point(table, e), e.offset),
{
    let after = writer::with_point(table, e);
    writer_laws::place_splits(table, e.offset, 0);
    let p = writer::line_place(table, e.offset, 0);
    assert forall|i: int| 0 <= i < table.len() implies is_held(
        after,
        (#[trigger] table[i]).offset,
    ) by {
        if after.len() == table.len() {
            assert(after[i].offset == table[i].offset);
        } else if i < p {
            assert(after[i] == table[i]);
        } else {
            assert(after[i + 1] == table[i]);
        }
    }
    assert(after[p].offset == e.offset);
}

/// The written methods are those that were added, each token once, in the
/// order of their tokens.
pub proof fn distinct_methods_strictly_ascend(methods: Seq<MethodModel>)
    requires
        distinct_tokens(methods),
    ensures
        writer::sorted_methods(methods).len() == methods.len(),
        forall|i: int, j: int|
            #![trigger writer::sorted_methods(methods)[i], writer::sorted_methods(methods)[j]]
            0 <= i < j < methods.len() ==> writer::sorted_methods(methods)[i].token.0
                < writer::sorted_methods(methods)[j].token.0,
        forall|i: int|
            0 <= i < methods.len() ==> methods.contains(
                #[trigger] writer::sorted_methods(methods)[i],
            ),
    decreases methods.len(),
{
    if methods.len() > 0 {
        let m = methods.last();
        let rest = methods.drop_last();
        let front = writer::sorted_methods(rest);
        let sorted = writer::sorted_methods(methods);
        distinct_methods_strictly_ascend(rest);
        writer_laws::token_place_splits(front, m.token, 0);
        let p = writer::token_place(front, m.token, 0);
        assert forall|i: int| 0 <= i < front.len() implies (#[trigger] front[i]).token
            != m.token by {
            let j = choose|j: int| 0 <= j < rest.len() && rest[j] == front[i];
            assert(methods[j].token != methods[methods.len() - 1].token);
        }
        assert forall|i: int| 0 <= i < methods.len() implies methods.contains(
            #[trigger] sorted[i],
        ) by {
            if i < p {
                let j = choose|j: int| 0 <= j < rest.len() && rest[j] == front[i];
                assert(methods[j] == sorted[i]);
            } else if i > p {
                let j = choose|j: int| 0 <= j < rest.len() && rest[j] == front[i - 1];
                assert(methods[j] == sorted[i]);
            } else {
                assert(methods[methods.len() - 1] == sorted[i]);
            }
        }
        assert forall|i: int, j: int|
            #![trigger sorted[i], sorted[j]]
            0 <= i < j < methods.len() implies sorted[i].token.0 < sorted[j].token.0 by {
            ascend_through(front, m, p, i, j);
        }
    }
}

proof fn ascend_through(front: Seq<MethodModel>, m: MethodModel, p: int, i: int, j: int)
    requires
        0 <= p <= front.len(),
        0 <= i < j < front.len() + 1,
        forall|a: int, b: int|
            #![trigger front[a], front[b]]
            0 <= a < b < front.len() ==> front[a].token.0 < front[b].token.0,
        forall|a: int| 0 <= a < p ==> (#[trigger] front[a]).token.0 <= m.token.0,
        p < front.len() ==> front[p].token.0 > m.token.0,
        forall|a: int| 0 <= a < front.len() ==> (#[trigger] front[a]).token != m.token,
    ensures
        front.insert(p, m)[i].token.0 < front.insert(p, m)[j].token.0,
{
    let all = front.insert(p, m);
    if j < p {
        assert(all[i] == front[i] && all[j] == front[j]);
    } else if j == p {
        assert(all[i] == front[i]);
        assert(front[i].token != m.token);
    } else if i < p {
        assert(all[i] == front[i] && all[j] == front[j - 1]);
    } else if i == p {
        assert(all[j] == front[j - 1]);
        if j - 1 > p {
            assert(front[p].token.0 < front[j - 1].token.0);
        }
    } else {
        assert(all[i] == front[i - 1] && all[j] == front[j - 1]);
    }
}

/// What a call is told keeps the file readable: source ids, units and namespaces
/// are not negative as signed numbers.
pub open spec fn plain_call(call: WriterCall) -> bool {
    match call {
        WriterCall::Unit(files) => forall|k: int|
            0 <= k < files.len() ==> #[trigger] files[k] <= i32::MAX,
        WriterCall::Lines(_, unit, namespace_id, _) => unit <= i32::MAX && namespace_id >= 0,
        _ => true,
    }
}

/// All calls are such.
pub open spec fn plain_calls(calls: Seq<WriterCall>) -> bool {
    forall|k: int| 0 <= k < calls.len() ==> plain_call(#[trigger] calls[k])
}

proof fn plain_units(guid: Seq<u8>, calls: Seq<WriterCall>)
    requires
        plain_calls(calls),
    ensures
        forall|k: int|
            0 <= k < after_calls(guid, calls).units.len() ==> writer_laws::plain_unit(
                #[trigger] after_calls(guid, calls).units[k],
            ),
    decreases calls.len(),
{
    if calls.len() > 0 {
        let front = calls.drop_last();
        assert forall|k: int| 0 <= k < front.len() implies plain_call(#[trigger] front[k]) by {
            assert(plain_call(calls[k]));
        }
        plain_units(guid, front);
        assert(plain_call(calls[calls.len() - 1]));
        let before = after_calls(guid, front);
        let after = after_calls(guid, calls);
        assert forall|k: int| 0 <= k < after.units.len() implies writer_laws::plain_unit(
            #[trigger] after.units[k],
        ) by {
            if k < before.units.len() {
                assert(after.units[k] == before.units[k]);
            } else if let WriterCall::Unit(files) = calls.last() {
                assert(after.units[k] == before.with_unit(files).units.last());
                if files.len() > 0 {
                    assert(files[0] <= i32::MAX);
                    let rest = files.skip(1);
                    assert forall|k: int| 0 <= k < rest.len() implies #[trigger] rest[k]
                        <= i32::MAX by {
                        assert(files[k + 1] <= i32::MAX);
                    }
                }
            }
        }
    }
}

proof fn plain_given(calls: Seq<WriterCall>, token: Token)
    requires
        plain_calls(calls),
    ensures
        registered(calls, token) matches Some(first) ==> first.0 <= i32::MAX && first.1 >= 0,
    decreases calls.len(),
{
    if calls.len() > 0 {
        let front = calls.drop_last();
        assert forall|k: int| 0 <= k < front.len() implies plain_call(#[trigger] front[k]) by {
            assert(plain_call(calls[k]));
        }
        plain_given(front, token);
        assert(plain_call(calls[calls.len() - 1]));
    }
}

/// IL offsets are not negative, and source ids are not negative as signed
/// numbers.
pub open spec fn points_in_range(points: Seq<(i32, i32, u32)>) -> bool {
    forall|k: int|
        0 <= k < points.len() ==> (#[trigger] points[k]).0 >= 0 && points[k].2 <= i32::MAX
}

proof fn held_lines_are_regular(table: Seq<LineEntry>, points: Seq<(i32, i32, u32)>)
    requires
        holds_points(table, points),
        points_in_range(points),
    ensures
        lines_laws::regular_lines(table),
{
    assert forall|k: int| #![trigger table[k]] 0 <= k < table.len() implies table[k].file
        <= i32::MAX && 0 <= lines::point_before(table, k).offset <= table[k].offset by {
        assert(largest_of(table[k], points));
        if k > 0 {
            assert(largest_of(table[k - 1], points));
        }
    }
}

/// Whatever a writer is told, if the ids are plain and the file is of less than
/// two gigabytes, its file parses.
proof fn told_is_plain(guid: Seq<u8>, calls: Seq<WriterCall>)
    requires
        guid.len() == 16,
        plain_calls(calls),
        after_calls(guid, calls).file().len() <= i32::MAX,
    ensures
        writer_laws::plain_model(after_calls(guid, calls)),
{
    let m = after_calls(guid, calls);
    writer_keeps_what_it_is_told(guid, calls);
    plain_units(guid, calls);
    assert forall|k: int| 0 <= k < m.methods.len() implies writer_laws::plain_method(
        #[trigger] m.methods[k],
    ) by {
        assert(told(m.methods[k], calls));
        plain_given(calls, m.methods[k].token);
    }
}

/// The different paths that the calls give, each where it first comes.
pub open spec fn distinct_paths(calls: Seq<WriterCall>) -> Seq<Seq<char>>
    decreases calls.len(),
{
    if calls.len() == 0 {
        Seq::empty()
    } else {
        let front = distinct_paths(calls.drop_last());
        match calls.last() {
            WriterCall::Source(path) if !front.contains(path) => front.push(path),
            _ => front,
        }
    }
}

/// The sources of the units that the calls give; a unit over none has the
/// source zero.
pub open spec fn given_units(calls: Seq<WriterCall>) -> Seq<Seq<u32>>
    decreases calls.len(),
{
    if calls.len() == 0 {
        Seq::empty()
    } else {
        let front = given_units(calls.drop_last());
        match calls.last() {
            WriterCall::Unit(files) => front.push(
                if files.len() == 0 {
                    seq![0u32]
                } else {
                    files
                },
            ),
            _ => front,
        }
    }
}

proof fn path_found(sources: Seq<Seq<char>>, path: Seq<char>, i: int)
    requires
        0 <= i,
    ensures
        match writer::source_place(sources, path, i) {
            Some(k) => i <= k < sources.len() && sources[k] == path,
            None => forall|j: int| i <= j < sources.len() ==> #[trigger] sources[j] != path,
        },
    decreases sources.len() - i,
{
    if i < sources.len() && sources[i] != path {
        path_found(sources, path, i + 1);
    }
}

/// A writer holds each path once, where it first came, and the units as they
/// were given.
pub proof fn writer_keeps_sources_and_units(guid: Seq<u8>, calls: Seq<WriterCall>)
    ensures
        after_calls(guid, calls).sources == distinct_paths(calls),
        writer_laws::read_units(after_calls(guid, calls).units) == given_units(calls),
    decreases calls.len(),
{
    let m = after_calls(guid, calls);
    if calls.len() > 0 {
        let before = after_calls(guid, calls.drop_last());
        writer_keeps_sources_and_units(guid, calls.drop_last());
        match calls.last() {
            WriterCall::Source(path) => {
                path_found(before.sources, path, 0);
            },
            WriterCall::Unit(files) => {
                if files.len() > 0 {
                    assert(seq![files[0]] + files.skip(1) =~= files);
                } else {
                    assert(seq![0u32] + Seq::<u32>::empty() =~= seq![0u32]);
                }
                assert(writer_laws::read_units(m.units) =~= given_units(calls));
            },
            _ => {},
        }
    } else {
        assert(writer_laws::read_units(m.units) =~= Seq::<Seq<u32>>::empty());
    }
}

/// The file of every writer parses: the guid, the version, the distinct source
/// paths in their order, the units as they were given and, strictly ascending,
/// each registered token once, in the unit and the namespace that it was first
/// registered with.
pub proof fn finished_file_lists_what_was_told(guid: Seq<u8>, calls: Seq<WriterCall>)
    requires
        guid.len() == 16,
        plain_calls(calls),
        after_calls(guid, calls).file().len() <= i32::MAX,
    ensures
        reader::parsed_mdb(after_calls(guid, calls).file()) matches Some(v) && {
            &&& v.guid == guid
            &&& v.major_version == reader::MAJOR_VERSION
            &&& v.sources == writer_laws::read_sources(distinct_paths(calls))
            &&& v.units == given_units(calls)
            &&& forall|k: int|
                0 <= k < v.methods.len() ==> entry_told(
                    (#[trigger] v.methods[k]).entry,
                    k,
                    calls,
                )
            &&& forall|i: int, j: int|
                #![trigger v.methods[i], v.methods[j]]
                0 <= i < j < v.methods.len() ==> v.methods[i].entry.token.0
                    < v.methods[j].entry.token.0
            &&& forall|t: Token|
                #![trigger registered(calls, t)]
                registered(calls, t) is Some ==> exists|k: int|
                    0 <= k < v.methods.len() && (#[trigger] v.methods[k]).entry.token == t
        },
{
    let m = after_calls(guid, calls);
    let sorted = writer::sorted_methods(m.methods);
    told_is_plain(guid, calls);
    writer_keeps_what_it_is_told(guid, calls);
    writer_laws::written_file_parses(m);
    writer_keeps_sources_and_units(guid, calls);
    sorted_are_told(guid, calls);
    let v = reader::parsed_mdb(m.file())->Some_0;
    assert forall|k: int| 0 <= k < v.methods.len() implies entry_told(
        (#[trigger] v.methods[k]).entry,
        k,
        calls,
    ) by {
        assert(v.methods[k].entry == writer_laws::read_entry(sorted[k], k));
        assert(told(sorted[k], calls));
        plain_given(calls, sorted[k].token);
        table_is_countable(m);
    }
    assert forall|i: int, j: int|
        #![trigger v.methods[i], v.methods[j]]
        0 <= i < j < v.methods.len() implies v.methods[i].entry.token.0
        < v.methods[j].entry.token.0 by {
        assert(sorted[i].token.0 < sorted[j].token.0);
    }
    assert forall|t: Token| #![trigger registered(calls, t)] registered(
        calls,
        t,
    ) is Some implies exists|k: int|
        0 <= k < v.methods.len() && (#[trigger] v.methods[k]).entry.token == t by {
        assert(exists|k: int| 0 <= k < sorted.len() && (#[trigger] sorted[k]).token == t);
        let k = choose|k: int| 0 <= k < sorted.len() && (#[trigger] sorted[k]).token == t;
        assert(v.methods[k].entry == writer_laws::read_entry(sorted[k], k));
    }
}

/// A written file has as many rows as a number of them can say.
proof fn table_is_countable(m: MdbModel)
    requires
        writer_laws::plain_model(m),
    ensures
        m.methods.len() <= i32::MAX,
{
    writer_laws::file_length(m);
    writer_laws::table_sizes(m);
}

/// The sorted methods are what the calls say of their tokens, in strictly
/// ascending order, and none is missing.
proof fn sorted_are_told(guid: Seq<u8>, calls: Seq<WriterCall>)
    ensures
        ({
            let sorted = writer::sorted_methods(after_calls(guid, calls).methods);
            &&& sorted.len() == after_calls(guid, calls).methods.len()
            &&& forall|k: int| 0 <= k < sorted.len() ==> told(#[trigger] sorted[k], calls)
            &&& forall|i: int, j: int|
                #![trigger sorted[i], sorted[j]]
                0 <= i < j < sorted.len() ==> sorted[i].token.0 < sorted[j].token.0
            &&& forall|t: Token|
                #![trigger registered(calls, t)]
                registered(calls, t) is Some ==> exists|k: int|
                    0 <= k < sorted.len() && (#[trigger] sorted[k]).token == t
        }),
{
    let m = after_calls(guid, calls);
    let sorted = writer::sorted_methods(m.methods);
    writer_keeps_what_it_is_told(guid, calls);
    distinct_methods_strictly_ascend(m.methods);
    assert forall|k: int| 0 <= k < sorted.len() implies told(#[trigger] sorted[k], calls) by {
        assert(m.methods.contains(sorted[k]));
        let j = choose|j: int| 0 <= j < m.methods.len() && m.methods[j] == sorted[k];
        assert(told(m.methods[j], calls));
    }
    assert forall|t: Token| #![trigger registered(calls, t)] registered(
        calls,
        t,
    ) is Some implies exists|k: int|
        0 <= k < sorted.len() && (#[trigger] sorted[k]).token == t by {
        place_found(m.methods, t, 0);
        let j = writer::method_place(m.methods, t, 0)->Some_0;
        sorted_has(m.methods, j);
        let k = choose|k: int| 0 <= k < sorted.len() && sorted[k] == m.methods[j];
        assert(sorted[k].token == t);
    }
}

proof fn sorted_has(methods: Seq<MethodModel>, j: int)
    requires
        0 <= j < methods.len(),
    ensures
        writer::sorted_methods(methods).contains(methods[j]),
{
    broadcast use vstd::seq_lib::group_to_multiset_ensures;

    let sorted = writer::sorted_methods(methods);
    writer_laws::methods_are_sorted(methods);
    assert(methods.contains(methods[j]));
    assert(methods.to_multiset().count(methods[j]) > 0);
    assert(sorted.to_multiset().count(methods[j]) > 0);
}

/// The entry of the `k`-th row says what the calls say of its token.
pub open spec fn entry_told(entry: MethodEntry, k: int, calls: Seq<WriterCall>) -> bool {
    &&& entry.row == k + 1
    &&& registered(calls, entry.token) == Some((entry.compile_unit, entry.namespace_id as i32))
}

/// The lines that the row gives are what the points come to: the IL offsets go
/// up, they are exactly those of the points, and each has the largest line that
/// is given for it.
pub open spec fn lines_come_to(v: MdbView, row: u32, points: Seq<(i32, i32, u32)>) -> bool {
    exists|table: Seq<LineEntry>|
        #![trigger lines_laws::decoded_points(table, 2)]
        holds_points(table, points) && v.lines(row) == Ok::<_, ErrorKind>(
            Some(lines_laws::decoded_points(table, 2)),
        )
}

/// The line-number table of a method reads back from every file that parses:
/// its IL offsets go up, they are exactly those that were given for the method,
/// and each has the largest line that was given for it. This is asked of the
/// points of that method alone: no IL offset is negative, and no source id is
/// negative as a signed number.
pub proof fn finished_lines_are_those_given(
    guid: Seq<u8>,
    calls: Seq<WriterCall>,
    v: MdbView,
    k: int,
)
    requires
        guid.len() == 16,
        after_calls(guid, calls).file().len() <= i32::MAX,
        reader::parsed_mdb(after_calls(guid, calls).file()) == Some(v),
        0 <= k < v.methods.len(),
        points_in_range(given_points(calls, v.methods[k].entry.token)),
    ensures
        lines_come_to(v, (k + 1) as u32, given_points(calls, v.methods[k].entry.token)),
{
    let m = after_calls(guid, calls);
    assert(m.guid == guid) by {
        writer_keeps_what_it_is_told(guid, calls);
    }
    writer_laws::parsed_is_plain(m);
    rows_found(m);
    method_found(m, k);
    method_is_told(guid, calls, k);
    method_lines_come_to(m, v, k, given_points(calls, v.methods[k].entry.token));
}

/// The lines that a row gives are what the points of its method come to.
proof fn method_lines_come_to(m: MdbModel, v: MdbView, k: int, points: Seq<(i32, i32, u32)>)
    requires
        writer_laws::plain_model(m),
        reader::parsed_mdb(m.file()) == Some(v),
        0 <= k < m.methods.len(),
        lines_laws::regular_lines(writer::sorted_methods(m.methods)[k].lines),
        holds_points(writer::sorted_methods(m.methods)[k].lines, points),
    ensures
        lines_come_to(v, (k + 1) as u32, points),
{
    lines_found(m, k);
}

/// The `k`-th sorted method has the lines that its token was given.
proof fn method_is_told(guid: Seq<u8>, calls: Seq<WriterCall>, k: int)
    requires
        0 <= k < after_calls(guid, calls).methods.len(),
    ensures
        ({
            let method = writer::sorted_methods(after_calls(guid, calls).methods)[k];
            let points = given_points(calls, method.token);
            &&& holds_points(method.lines, points)
            &&& points_in_range(points) ==> lines_laws::regular_lines(method.lines)
        }),
{
    let method = writer::sorted_methods(after_calls(guid, calls).methods)[k];
    let points = given_points(calls, method.token);
    sorted_are_told(guid, calls);
    assert(told(method, calls));
    given_points_are_held(points, points.len());
    assert(points.take(points.len() as int) =~= points);
    if points_in_range(points) {
        held_lines_are_regular(method.lines, points);
    }
}

/// A written file has a row for each method.
proof fn rows_found(m: MdbModel)
    requires
        writer_laws::plain_model(m),
    ensures
        reader::parsed_mdb(m.file()) matches Some(v) && v.methods.len() == m.methods.len(),
{
    writer_laws::written_file_parses(m);
    writer_laws::methods_are_sorted(m.methods);
}

/// The `k`-th row is that of the `k`-th sorted method.
proof fn method_found(m: MdbModel, k: int)
    requires
        writer_laws::plain_model(m),
        0 <= k < m.methods.len(),
    ensures
        reader::parsed_mdb(m.file()) matches Some(v) && v.methods[k].entry.token
            == writer::sorted_methods(m.methods)[k].token,
{
    let sorted = writer::sorted_methods(m.methods);
    writer_laws::written_file_parses(m);
    writer_laws::methods_are_sorted(m.methods);
    let v = reader::parsed_mdb(m.file())->Some_0;
    assert(v.methods[k].entry == writer_laws::read_entry(sorted[k], k));
}

/// The lines of the `k`-th row are those of the `k`-th sorted method.
proof fn lines_found(m: MdbModel, k: int)
    requires
        writer_laws::plain_model(m),
        0 <= k < m.methods.len(),
        lines_laws::regular_lines(writer::sorted_methods(m.methods)[k].lines),
    ensures
        reader::parsed_mdb(m.file()) matches Some(v) && v.lines((k + 1) as u32) == Ok::<
            _,
            ErrorKind,
        >(Some(lines_laws::decoded_points(writer::sorted_methods(m.methods)[k].lines, 2))),
{
    writer_laws::written_method_reads_back(m, k);
}

} // verus!
