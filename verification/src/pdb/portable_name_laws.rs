//! Laws of how a portable PDB builder takes what it is told apart: separators and
//! segments of document names, known documents, and methods.

use vstd::prelude::*;

use crate::metadata::builder::BuilderModel;
use crate::pdb::portable_writer;
use crate::pdb::portable_writer::SlotModel;
use crate::pdb::sequence_points::SequencePoint;
use crate::token::Token;

verus! {

proof fn occurrences_are_counted(t: Seq<char>, c: char)
    ensures
        portable_writer::occurrences(t, c) == t.to_multiset().count(c),
        portable_writer::occurrences(t, c) > 0 <==> t.contains(c),
    decreases t.len(),
{
    broadcast use vstd::seq_lib::group_to_multiset_ensures;

    if t.len() > 0 {
        let front = t.drop_last();
        occurrences_are_counted(front, c);
        assert(front.push(t.last()) =~= t);
        if t.contains(c) && t.last() != c {
            let k = choose|k: int| 0 <= k < t.len() && t[k] == c;
            assert(front[k] == c);
        }
        if front.contains(c) {
            let k = choose|k: int| 0 <= k < front.len() && front[k] == c;
            assert(t[k] == c);
        }
    }
}

/// A name is taken apart at the separator that it has more of, at the slash where
/// it has as many of both, and not at all where it has none.
pub proof fn dominant_separators(name: Seq<char>)
    ensures
        portable_writer::separator_of(name) is None <==> !name.contains('/') && !name.contains(
            '\\',
        ),
        portable_writer::separator_of(name) == Some('/') <==> name.contains('/')
            && name.to_multiset().count('/') >= name.to_multiset().count('\\'),
        portable_writer::separator_of(name) == Some('\\') <==> name.to_multiset().count('\\')
            > name.to_multiset().count('/'),
        portable_writer::separator_byte(name) == match portable_writer::separator_of(name) {
            None => 0int,
            Some(c) => c as int,
        },
{
    occurrences_are_counted(name, '/');
    occurrences_are_counted(name, '\\');
}

/// A text without the separator is one part.
pub proof fn unseparated_text_is_one_part(t: Seq<char>, separator: char)
    requires
        !t.contains(separator),
    ensures
        portable_writer::split(t, separator) == seq![t],
    decreases t.len(),
{
    if t.len() > 0 {
        let front = t.drop_last();
        assert forall|k: int| 0 <= k < front.len() implies front[k] != separator by {
            assert(t[k] != separator);
        }
        unseparated_text_is_one_part(front, separator);
        assert(t[t.len() - 1] != separator);
        assert(front.push(t.last()) =~= t);
        assert(portable_writer::split(t, separator) =~= seq![t]);
    } else {
        assert(t =~= Seq::empty());
        assert(portable_writer::split(t, separator) =~= seq![t]);
    }
}

proof fn split_has_parts(t: Seq<char>, separator: char)
    ensures
        portable_writer::split(t, separator).len() > 0,
    decreases t.len(),
{
    if t.len() > 0 {
        split_has_parts(t.drop_last(), separator);
    }
}

/// A separator parts the text before it from the text behind it.
pub proof fn separators_part_the_text(a: Seq<char>, b: Seq<char>, separator: char)
    ensures
        portable_writer::split(a.push(separator) + b, separator) == portable_writer::split(
            a,
            separator,
        ) + portable_writer::split(b, separator),
    decreases b.len(),
{
    let t = a.push(separator) + b;
    split_has_parts(b, separator);
    if b.len() == 0 {
        assert(t.drop_last() =~= a);
        assert(t.last() == separator);
        assert(portable_writer::split(t, separator) =~= portable_writer::split(a, separator)
            + portable_writer::split(b, separator));
    } else {
        let front = b.drop_last();
        separators_part_the_text(a, front, separator);
        split_has_parts(front, separator);
        assert(t.drop_last() =~= a.push(separator) + front);
        assert(t.last() == b.last());
        assert(portable_writer::split(t, separator) =~= portable_writer::split(a, separator)
            + portable_writer::split(b, separator));
    }
}

/// The segments of a name without separators are the name itself, and those of
/// another name are its parts between the dominant separators.
pub proof fn segments_of_names(name: Seq<char>)
    ensures
        !name.contains('/') && !name.contains('\\') ==> portable_writer::segments(name) == seq![
            name,
        ],
        name.contains('/') && !name.contains('\\') ==> portable_writer::segments(name)
            == portable_writer::split(name, '/'),
        name.contains('\\') && !name.contains('/') ==> portable_writer::segments(name)
            == portable_writer::split(name, '\\'),
{
    occurrences_are_counted(name, '/');
    occurrences_are_counted(name, '\\');
}

proof fn name_found_from(names: Seq<Seq<char>>, name: Seq<char>, from: int, i: int)
    requires
        0 <= from <= i <= names.len(),
        i < names.len() ==> names[i] == name,
        forall|j: int| from <= j < i ==> #[trigger] names[j] != name,
    ensures
        portable_writer::name_place(names, name, from) == if i < names.len() {
            Some(i)
        } else {
            None
        },
    decreases i - from,
{
    if from < i {
        name_found_from(names, name, from + 1, i);
    }
}

/// A document is known by the first place of its name, and not known if no
/// document has the name.
pub proof fn documents_are_known_by_name(names: Seq<Seq<char>>, name: Seq<char>, i: int)
    requires
        0 <= i <= names.len(),
        i < names.len() ==> names[i] == name,
        forall|j: int| 0 <= j < i ==> #[trigger] names[j] != name,
    ensures
        i < names.len() ==> portable_writer::name_place(names, name, 0) == Some(i),
        i == names.len() ==> portable_writer::name_place(names, name, 0) is None,
{
    name_found_from(names, name, 0, i);
}

/// Only a token of the method table with a row names a method, by this row.
pub proof fn methods_are_named_by_row(method: Token)
    ensures
        portable_writer::method_rid_of(method) is Some <==> 0x0600_0000 < method.0 < 0x0700_0000,
        portable_writer::method_rid_of(method) is Some ==> portable_writer::method_rid_of(
            method,
        )->Some_0 == method.0 - 0x0600_0000,
{
}

proof fn offsets_ascend(points: Seq<SequencePoint>, i: int, j: int)
    requires
        portable_writer::offsets_valid(points),
        0 <= i < j < points.len(),
    ensures
        points[i].offset < points[j].offset,
    decreases j - i,
{
    if i < j - 1 {
        offsets_ascend(points, i, j - 1);
    }
    assert(points[j].offset > points[j - 1].offset);
}

/// Points are taken if and only if their offsets are not negative and every point
/// lies behind all those before it.
pub proof fn taken_points_ascend(points: Seq<SequencePoint>)
    ensures
        portable_writer::offsets_valid(points) <==> (forall|k: int|
            0 <= k < points.len() ==> (#[trigger] points[k]).offset >= 0) && (forall|i: int, j: int|
            0 <= i < j < points.len() ==> (#[trigger] points[i]).offset < (
            #[trigger] points[j]).offset),
{
    if portable_writer::offsets_valid(points) {
        assert forall|i: int, j: int| 0 <= i < j < points.len() implies (
        #[trigger] points[i]).offset < (#[trigger] points[j]).offset by {
            offsets_ascend(points, i, j);
        }
    }
    if (forall|k: int| 0 <= k < points.len() ==> (#[trigger] points[k]).offset >= 0) && (forall|
        i: int,
        j: int,
    |
        0 <= i < j < points.len() ==> (#[trigger] points[i]).offset < (
        #[trigger] points[j]).offset) {
        assert forall|k: int|
            #![trigger points[k]]
            0 <= k < points.len() implies points[k].offset >= 0 && (k > 0 ==> points[k].offset
            > points[k - 1].offset) by {
            if k > 0 {
                assert(points[k - 1].offset < points[k].offset);
            }
        }
    }
}

/// A method without points gets a row with its document and no blob, and the blobs
/// stay as they are.
pub proof fn methods_without_points_have_no_blob(md: BuilderModel, slot: Option<SlotModel>)
    requires
        md.rows.len() == 0x38,
        slot matches Some(s) ==> (s.points matches Some(points) ==> points.len() == 0),
    ensures
        ({
            let after = portable_writer::with_method(md, slot);
            &&& after.blobs == md.blobs
            &&& after.rows[0x31].len() == md.rows[0x31].len() + 1
            &&& after.rows[0x31].last() == seq![
                match slot {
                    Some(s) => s.document as u64,
                    None => 0,
                },
                0u64,
            ]
        }),
{
}

} // verus!
