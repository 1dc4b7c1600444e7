//! What a written portable PDB says of all that its builder was told.

use vstd::prelude::*;

use crate::bytes;
use crate::error::ErrorKind;
use crate::metadata::builder::HeapModel;
use crate::metadata::builder_laws;
use crate::metadata::root;
use crate::pdb::document::DocumentView;
use crate::pdb::portable_laws;
use crate::pdb::portable_laws::{CustomView, PortableContent};
use crate::pdb::portable_read_laws;
use crate::pdb::portable_reader;
use crate::pdb::portable_reader::ScopeView;
use crate::pdb::portable_writer;
use crate::pdb::portable_writer::{PortableModel, SlotModel};
use crate::pdb::sequence_points;
use crate::pdb::sequence_points::SequencePoint;
use crate::token::{TableIndex, Token};

verus! {

/// A call on a builder.
pub enum PortableCall {
    Document(Seq<char>, Seq<u8>, Seq<u8>, Seq<u8>),
    Points(Token, u32, Seq<SequencePoint>),
    Signature(Token, u32),
    Import(u32, Seq<u8>),
    Scope(Token, u32, Seq<(u16, Seq<char>, u32)>, Seq<(Seq<char>, Seq<u8>)>, i32, i32),
    Custom(Token, Seq<u8>, Seq<u8>),
    EntryPoint(Token),
    PdbId(Seq<u8>),
    ModuleGuid(Seq<u8>),
}

/// What a call makes of a builder. What the builder refuses leaves it as it is.
pub open spec fn after_call(m: PortableModel, call: PortableCall) -> PortableModel {
    match call {
        PortableCall::Document(name, algorithm, hash, language) => if portable_writer::name_place(
            m.names,
            name,
            0,
        ) is Some {
            m
        } else {
            m.with_document(name, algorithm, hash, language)
        },
        PortableCall::Points(method, document, points) => match portable_writer::method_rid_of(
            method,
        ) {
            Some(rid) if 1 <= document <= m.document_rows.len() && portable_writer::offsets_valid(
                points,
            ) => m.with_slot(
                rid,
                SlotModel {
                    document,
                    points: Some(points),
                    signature: portable_writer::slot_of(m.slots, rid).signature,
                },
            ),
            _ => m,
        },
        PortableCall::Signature(method, signature) => match portable_writer::method_rid_of(
            method,
        ) {
            Some(rid) => m.with_slot(
                rid,
                SlotModel { signature, ..portable_writer::slot_of(m.slots, rid) },
            ),
            None => m,
        },
        PortableCall::Import(parent, imports) => m.with_import(parent, imports),
        PortableCall::Scope(method, import_scope, variables, constants, start, length) =>
            match portable_writer::method_rid_of(method) {
            Some(rid) => m.with_scope(rid, import_scope, variables, constants, start, length),
            None => m,
        },
        PortableCall::Custom(parent, kind, value) => match portable_laws::parent_cell(parent) {
            Some(cell) => m.with_custom(cell, kind, value),
            None => m,
        },
        PortableCall::EntryPoint(token) => PortableModel { entry_point: token, ..m },
        PortableCall::PdbId(id) => PortableModel { pdb_id: id, ..m },
        PortableCall::ModuleGuid(guid) => PortableModel { module_guid: Some(guid), ..m },
    }
}

/// What a call adds to the content.
pub open spec fn content_after(m: PortableModel, c: PortableContent, call: PortableCall) -> PortableContent {
    match call {
        PortableCall::Document(name, hash_algorithm, hash, language) =>
            if portable_writer::name_place(m.names, name, 0) is Some {
            c
        } else {
            PortableContent {
                documents: c.documents.push(DocumentView { name, hash_algorithm, hash, language }),
                ..c
            }
        },
        PortableCall::Import(parent, imports) => PortableContent {
            imports: c.imports.push((parent, imports)),
            ..c
        },
        PortableCall::Scope(method, import_scope, variables, constants, start, length) =>
            match portable_writer::method_rid_of(method) {
            Some(rid) => PortableContent {
                variables: c.variables + portable_laws::given_variables(variables),
                constants: c.constants + portable_laws::given_constants(constants),
                scopes: c.scopes.push(
                    portable_laws::given_scope(
                        c,
                        rid,
                        import_scope,
                        variables.len() as int,
                        constants.len() as int,
                        start,
                        length,
                    ),
                ),
                ..c
            },
            None => c,
        },
        PortableCall::Custom(parent, kind, value) => match portable_laws::parent_cell(parent) {
            Some(_) => PortableContent {
                customs: c.customs.push(CustomView { parent, kind, value }),
                ..c
            },
            None => c,
        },
        _ => c,
    }
}

/// What the calls make of a fresh builder.
pub open spec fn built_by(version: Seq<char>, calls: Seq<PortableCall>) -> PortableModel
    decreases calls.len(),
{
    if calls.len() == 0 {
        portable_writer::fresh_portable(version)
    } else {
        after_call(built_by(version, calls.drop_last()), calls.last())
    }
}

/// What the calls are about.
pub open spec fn content_of(version: Seq<char>, calls: Seq<PortableCall>) -> PortableContent
    decreases calls.len(),
{
    if calls.len() == 0 {
        portable_laws::no_content()
    } else {
        content_after(
            built_by(version, calls.drop_last()),
            content_of(version, calls.drop_last()),
            calls.last(),
        )
    }
}

/// Ids have their lengths.
pub open spec fn plain_call(call: PortableCall) -> bool {
    match call {
        PortableCall::Document(_, algorithm, _, language) => algorithm.len() == 16
            && language.len() == 16,
        PortableCall::Custom(_, kind, _) => kind.len() == 16,
        PortableCall::PdbId(id) => id.len() == 20,
        PortableCall::ModuleGuid(guid) => guid.len() == 16,
        _ => true,
    }
}

/// All calls are such.
pub open spec fn plain_calls(calls: Seq<PortableCall>) -> bool {
    forall|k: int| 0 <= k < calls.len() ==> plain_call(#[trigger] calls[k])
}

/// The heaps fit 32 bits, and the rows can be counted.
pub open spec fn small(m: PortableModel) -> bool {
    &&& m.metadata.strings.data.len() <= 0xFFFF_FFFF
    &&& m.metadata.blobs.data.len() <= 0xFFFF_FFFF
    &&& m.metadata.guids.data.len() <= 0xFFFF_FFFF
    &&& m.variable_rows.len() < 0xFFFF_FFFF
    &&& m.constant_rows.len() < 0xFFFF_FFFF
}

proof fn segments_grow(h: HeapModel, parts: Seq<Seq<char>>, n: nat)
    requires
        n <= parts.len(),
    ensures
        h.data.len() <= portable_writer::with_segments(h, parts, n).0.data.len(),
    decreases n,
{
    if n > 0 {
        segments_grow(h, parts, (n - 1) as nat);
    }
}

proof fn variables_grow(m: PortableModel, variables: Seq<(u16, Seq<char>, u32)>, n: nat)
    requires
        n <= variables.len(),
    ensures
        ({
            let after = m.with_variables(variables, n);
            &&& m.metadata.strings.data.len() <= after.metadata.strings.data.len()
            &&& after.metadata.blobs == m.metadata.blobs
            &&& after.metadata.guids == m.metadata.guids
            &&& after.variable_rows.len() == m.variable_rows.len() + n
            &&& after.constant_rows == m.constant_rows
        }),
    decreases n,
{
    if n > 0 {
        variables_grow(m, variables, (n - 1) as nat);
    }
}

proof fn constants_grow(m: PortableModel, constants: Seq<(Seq<char>, Seq<u8>)>, n: nat)
    requires
        n <= constants.len(),
    ensures
        ({
            let after = m.with_constants(constants, n);
            &&& m.metadata.strings.data.len() <= after.metadata.strings.data.len()
            &&& m.metadata.blobs.data.len() <= after.metadata.blobs.data.len()
            &&& after.metadata.guids == m.metadata.guids
            &&& after.constant_rows.len() == m.constant_rows.len() + n
            &&& after.variable_rows == m.variable_rows
        }),
    decreases n,
{
    if n > 0 {
        constants_grow(m, constants, (n - 1) as nat);
    }
}

/// No call makes anything smaller.
proof fn call_grows(m: PortableModel, call: PortableCall)
    requires
        small(after_call(m, call)),
    ensures
        small(m),
{
    match call {
        PortableCall::Document(name, algorithm, hash, language) => {
            let parts = portable_writer::segments(name);
            segments_grow(m.metadata.blobs, parts, parts.len());
        },
        PortableCall::Scope(method, import_scope, variables, constants, start, length) => {
            variables_grow(m, variables, variables.len());
            constants_grow(
                m.with_variables(variables, variables.len()),
                constants,
                constants.len(),
            );
        },
        _ => {},
    }
}

proof fn call_is_described(m: PortableModel, c: PortableContent, call: PortableCall)
    requires
        portable_laws::describes(m, c),
        plain_call(call),
        small(after_call(m, call)),
    ensures
        portable_laws::describes(after_call(m, call), content_after(m, c, call)),
{
    match call {
        PortableCall::Document(name, algorithm, hash, language) => {
            if portable_writer::name_place(m.names, name, 0) is None {
                portable_laws::added_document_is_described(m, c, name, algorithm, hash, language);
            }
        },
        PortableCall::Points(method, document, points) => {
            if let Some(rid) = portable_writer::method_rid_of(method) {
                portable_laws::recorded_method_keeps_content(
                    m,
                    c,
                    rid,
                    SlotModel {
                        document,
                        points: Some(points),
                        signature: portable_writer::slot_of(m.slots, rid).signature,
                    },
                );
            }
        },
        PortableCall::Signature(method, signature) => {
            if let Some(rid) = portable_writer::method_rid_of(method) {
                portable_laws::recorded_method_keeps_content(
                    m,
                    c,
                    rid,
                    SlotModel { signature, ..portable_writer::slot_of(m.slots, rid) },
                );
            }
        },
        PortableCall::Import(parent, imports) => {
            portable_laws::added_import_is_described(m, c, parent, imports);
        },
        PortableCall::Scope(method, import_scope, variables, constants, start, length) => {
            if let Some(rid) = portable_writer::method_rid_of(method) {
                variables_grow(m, variables, variables.len());
                constants_grow(
                    m.with_variables(variables, variables.len()),
                    constants,
                    constants.len(),
                );
                portable_laws::added_scope_is_described(
                    m,
                    c,
                    rid,
                    import_scope,
                    variables,
                    constants,
                    start,
                    length,
                );
            }
        },
        PortableCall::Custom(parent, kind, value) => {
            if let Some(cell) = portable_laws::parent_cell(parent) {
                portable_laws::added_custom_is_described(m, c, parent, cell, kind, value);
            }
        },
        _ => {},
    }
}

/// Every builder holds what it was told, as long as its heaps fit 32 bits.
pub proof fn builder_holds_what_it_is_told(version: Seq<char>, calls: Seq<PortableCall>)
    requires
        plain_calls(calls),
        small(built_by(version, calls)),
    ensures
        portable_laws::describes(built_by(version, calls), content_of(version, calls)),
        built_by(version, calls).metadata.version == version,
        built_by(version, calls).pdb_id.len() == 20,
        built_by(version, calls).module_guid matches Some(g) ==> g.len() == 16,
    decreases calls.len(),
{
    if calls.len() == 0 {
        portable_laws::fresh_builder_describes_nothing(version);
    } else {
        let front = calls.drop_last();
        let m = built_by(version, front);
        assert forall|k: int| 0 <= k < front.len() implies plain_call(#[trigger] front[k]) by {
            assert(plain_call(calls[k]));
        }
        assert(plain_call(calls[calls.len() - 1]));
        call_grows(m, calls.last());
        builder_holds_what_it_is_told(version, front);
        call_is_described(m, content_of(version, front), calls.last());
        version_is_kept(m, calls.last());
    }
}

proof fn variables_version(m: PortableModel, variables: Seq<(u16, Seq<char>, u32)>, n: nat)
    requires
        n <= variables.len(),
    ensures
        ({
            let after = m.with_variables(variables, n);
            after.metadata.version == m.metadata.version && after.pdb_id == m.pdb_id
                && after.module_guid == m.module_guid
        }),
        m.with_variables(variables, n).entry_point == m.entry_point,
    decreases n,
{
    if n > 0 {
        variables_version(m, variables, (n - 1) as nat);
    }
}

proof fn constants_version(m: PortableModel, constants: Seq<(Seq<char>, Seq<u8>)>, n: nat)
    requires
        n <= constants.len(),
    ensures
        ({
            let after = m.with_constants(constants, n);
            after.metadata.version == m.metadata.version && after.pdb_id == m.pdb_id
                && after.module_guid == m.module_guid
        }),
        m.with_constants(constants, n).entry_point == m.entry_point,
    decreases n,
{
    if n > 0 {
        constants_version(m, constants, (n - 1) as nat);
    }
}

proof fn version_is_kept(m: PortableModel, call: PortableCall)
    requires
        plain_call(call),
    ensures
        after_call(m, call).metadata.version == m.metadata.version,
        m.pdb_id.len() == 20 ==> after_call(m, call).pdb_id.len() == 20,
        (m.module_guid matches Some(g) ==> g.len() == 16) ==> (after_call(
            m,
            call,
        ).module_guid matches Some(g) ==> g.len() == 16),
{
    if let PortableCall::Scope(method, import_scope, variables, constants, start, length) = call {
        variables_version(m, variables, variables.len());
        constants_version(
            m.with_variables(variables, variables.len()),
            constants,
            constants.len(),
        );
    }
}

proof fn variables_shaped(m: PortableModel, variables: Seq<(u16, Seq<char>, u32)>, n: nat)
    requires
        portable_laws::shaped(m),
        n <= variables.len(),
    ensures
        portable_laws::shaped(m.with_variables(variables, n)),
        m.with_variables(variables, n).slots == m.slots,
        m.with_variables(variables, n).document_rows == m.document_rows,
        m.with_variables(variables, n).names == m.names,
    decreases n,
{
    if n > 0 {
        variables_shaped(m, variables, (n - 1) as nat);
        let before = m.with_variables(variables, (n - 1) as nat);
        let after = m.with_variables(variables, n);
        assert forall|k: int| 0 <= k < after.variable_rows.len() implies (
        #[trigger] after.variable_rows[k]).len() == 3 by {
            if k < before.variable_rows.len() {
                assert(after.variable_rows[k] == before.variable_rows[k]);
            }
        }
    }
}

proof fn constants_shaped(m: PortableModel, constants: Seq<(Seq<char>, Seq<u8>)>, n: nat)
    requires
        portable_laws::shaped(m),
        n <= constants.len(),
    ensures
        portable_laws::shaped(m.with_constants(constants, n)),
        m.with_constants(constants, n).slots == m.slots,
        m.with_constants(constants, n).document_rows == m.document_rows,
        m.with_constants(constants, n).names == m.names,
    decreases n,
{
    if n > 0 {
        constants_shaped(m, constants, (n - 1) as nat);
        let before = m.with_constants(constants, (n - 1) as nat);
        let after = m.with_constants(constants, n);
        assert forall|k: int| 0 <= k < after.constant_rows.len() implies (
        #[trigger] after.constant_rows[k]).len() == 2 by {
            if k < before.constant_rows.len() {
                assert(after.constant_rows[k] == before.constant_rows[k]);
            }
        }
    }
}

/// Every method that is known of has a document that was added, or none.
pub open spec fn slots_documented(m: PortableModel) -> bool {
    forall|k: int|
        #![trigger m.slots[k]]
        0 <= k < m.slots.len() ==> (m.slots[k] matches Some(s) ==> s.document
            <= m.document_rows.len() && (s.points is Some ==> s.document >= 1))
}

/// The largest rid of a method that the call tells the builder of.
pub open spec fn rid_told(m: PortableModel, call: PortableCall) -> nat {
    match call {
        PortableCall::Points(method, document, points) => match portable_writer::method_rid_of(
            method,
        ) {
            Some(rid) if points_taken(m, document, points) => rid as nat,
            _ => 0,
        },
        PortableCall::Signature(method, _) => match portable_writer::method_rid_of(method) {
            Some(rid) => rid as nat,
            None => 0,
        },
        _ => 0,
    }
}

/// The builder takes the points: the document was added, and the offsets go up.
pub open spec fn points_taken(m: PortableModel, document: u32, points: Seq<SequencePoint>) -> bool {
    1 <= document <= m.document_rows.len() && portable_writer::offsets_valid(points)
}

/// The largest rid of a method that the calls tell the builder of.
pub open spec fn largest_rid(version: Seq<char>, calls: Seq<PortableCall>) -> nat
    decreases calls.len(),
{
    if calls.len() == 0 {
        0
    } else {
        let front = calls.drop_last();
        let before = largest_rid(version, front);
        let told = rid_told(built_by(version, front), calls.last());
        if told > before {
            told
        } else {
            before
        }
    }
}

proof fn call_keeps_shape(m: PortableModel, call: PortableCall)
    requires
        portable_laws::shaped(m),
    ensures
        portable_laws::shaped(after_call(m, call)),
{
    let after = after_call(m, call);
    match call {
        PortableCall::Document(name, algorithm, hash, language) => {
            assert forall|k: int| 0 <= k < after.document_rows.len() implies (
            #[trigger] after.document_rows[k]).len() == 4 by {
                if k < m.document_rows.len() {
                    assert(after.document_rows[k] == m.document_rows[k]);
                }
            }
        },
        PortableCall::Import(parent, imports) => {
            assert forall|k: int| 0 <= k < after.import_rows.len() implies (
            #[trigger] after.import_rows[k]).len() == 2 by {
                if k < m.import_rows.len() {
                    assert(after.import_rows[k] == m.import_rows[k]);
                }
            }
        },
        PortableCall::Scope(method, import_scope, variables, constants, start, length) => {
            if let Some(rid) = portable_writer::method_rid_of(method) {
                scope_shaped(m, rid, import_scope, variables, constants, start, length);
            }
        },
        PortableCall::Custom(parent, kind, value) => {
            if let Some(cell) = portable_laws::parent_cell(parent) {
                assert forall|k: int| 0 <= k < after.custom_rows.len() implies (
                #[trigger] after.custom_rows[k]).len() == 3 by {
                    if k < m.custom_rows.len() {
                        assert(after.custom_rows[k] == m.custom_rows[k]);
                    }
                }
            }
        },
        _ => {},
    }
}

proof fn scope_shaped(
    m: PortableModel,
    rid: u32,
    import_scope: u32,
    variables: Seq<(u16, Seq<char>, u32)>,
    constants: Seq<(Seq<char>, Seq<u8>)>,
    start: i32,
    length: i32,
)
    requires
        portable_laws::shaped(m),
    ensures
        portable_laws::shaped(
            m.with_scope(rid, import_scope, variables, constants, start, length),
        ),
        scope_keeps_slots(m, rid, import_scope, variables, constants, start, length),
{
    let after = m.with_scope(rid, import_scope, variables, constants, start, length);
    let first = m.with_variables(variables, variables.len());
    let second = first.with_constants(constants, constants.len());
    variables_shaped(m, variables, variables.len());
    constants_shaped(first, constants, constants.len());
    assert forall|k: int| 0 <= k < after.scope_rows.len() implies (
    #[trigger] after.scope_rows[k]).len() == 6 by {
        if k < second.scope_rows.len() {
            assert(after.scope_rows[k] == second.scope_rows[k]);
        }
    }
}

/// A scope adds no methods and no documents.
spec fn scope_keeps_slots(
    m: PortableModel,
    rid: u32,
    import_scope: u32,
    variables: Seq<(u16, Seq<char>, u32)>,
    constants: Seq<(Seq<char>, Seq<u8>)>,
    start: i32,
    length: i32,
) -> bool {
    let after = m.with_scope(rid, import_scope, variables, constants, start, length);
    after.slots == m.slots && after.document_rows == m.document_rows && after.names == m.names
}

/// What a call does to what is known of methods.
proof fn call_keeps_slots(m: PortableModel, call: PortableCall)
    requires
        portable_laws::shaped(m),
        slots_documented(m),
    ensures
        slots_documented(after_call(m, call)),
        after_call(m, call).slots.len() == (if rid_told(m, call) > m.slots.len() {
            rid_told(m, call)
        } else {
            m.slots.len()
        }),
{
    match call {
        PortableCall::Points(method, document, points) => {
            if let Some(rid) = portable_writer::method_rid_of(method) {
                if points_taken(m, document, points) {
                    slot_documented(
                        m,
                        rid,
                        SlotModel {
                            document,
                            points: Some(points),
                            signature: portable_writer::slot_of(m.slots, rid).signature,
                        },
                    );
                }
            }
        },
        PortableCall::Signature(method, signature) => {
            if let Some(rid) = portable_writer::method_rid_of(method) {
                let slot = portable_writer::slot_of(m.slots, rid);
                if rid <= m.slots.len() {
                    assert(m.slots[rid - 1] matches Some(s) ==> s.document
                        <= m.document_rows.len());
                }
                slot_documented(m, rid, SlotModel { signature, ..slot });
            }
        },
        PortableCall::Scope(method, import_scope, variables, constants, start, length) => {
            if let Some(rid) = portable_writer::method_rid_of(method) {
                scope_shaped(m, rid, import_scope, variables, constants, start, length);
            }
        },
        PortableCall::Document(name, algorithm, hash, language) => {
            let after = after_call(m, call);
            assert forall|k: int| #![trigger after.slots[k]] 0 <= k < after.slots.len() implies (
            after.slots[k] matches Some(s) ==> s.document <= after.document_rows.len() && (
            s.points is Some ==> s.document >= 1)) by {
                assert(after.slots[k] == m.slots[k]);
            }
        },
        _ => {},
    }
}

proof fn slot_length(slots: Seq<Option<SlotModel>>, rid: u32)
    requires
        rid >= 1,
    ensures
        portable_writer::padded(slots, rid).len() == (if rid > slots.len() {
            rid as nat
        } else {
            slots.len()
        }),
        forall|k: int|
            0 <= k < portable_writer::padded(slots, rid).len() ==> (
            #[trigger] portable_writer::padded(slots, rid)[k]) == (if k < slots.len() {
                slots[k]
            } else {
                None
            }),
{
}

proof fn slot_documented(m: PortableModel, rid: u32, slot: SlotModel)
    requires
        slots_documented(m),
        rid >= 1,
        slot.document <= m.document_rows.len(),
        slot.points is Some ==> slot.document >= 1,
    ensures
        slots_documented(m.with_slot(rid, slot)),
        m.with_slot(rid, slot).slots.len() == (if rid > m.slots.len() {
            rid as nat
        } else {
            m.slots.len()
        }),
{
    slot_length(m.slots, rid);
    let after = m.with_slot(rid, slot);
    assert forall|k: int| #![trigger after.slots[k]] 0 <= k < after.slots.len() implies (
    after.slots[k] matches Some(s) ==> s.document <= m.document_rows.len() && (s.points is Some
        ==> s.document >= 1)) by {
        if k != rid - 1 && k < m.slots.len() {
            assert(after.slots[k] == m.slots[k]);
        }
    }
}

/// Whatever a builder is told, its rows have a cell for each column, and it has
/// a slot for every method up to the last one that it was told of.
pub proof fn builder_keeps_shape(version: Seq<char>, calls: Seq<PortableCall>)
    ensures
        portable_laws::shaped(built_by(version, calls)),
        slots_documented(built_by(version, calls)),
        built_by(version, calls).slots.len() == largest_rid(version, calls),
    decreases calls.len(),
{
    if calls.len() == 0 {
        portable_laws::fresh_builder_describes_nothing(version);
        portable_laws::stored_is_shaped(
            portable_writer::fresh_portable(version),
            portable_laws::no_content(),
        );
    } else {
        builder_keeps_shape(version, calls.drop_last());
        call_keeps_shape(built_by(version, calls.drop_last()), calls.last());
        call_keeps_slots(built_by(version, calls.drop_last()), calls.last());
    }
}

/// The ids keep their lengths.
proof fn ids_whole(version: Seq<char>, calls: Seq<PortableCall>)
    requires
        plain_calls(calls),
    ensures
        built_by(version, calls).metadata.version == version,
        built_by(version, calls).pdb_id.len() == 20,
        built_by(version, calls).module_guid matches Some(g) ==> g.len() == 16,
    decreases calls.len(),
{
    if calls.len() > 0 {
        let front = calls.drop_last();
        assert forall|k: int| 0 <= k < front.len() implies plain_call(#[trigger] front[k]) by {
            assert(plain_call(calls[k]));
        }
        assert(plain_call(calls[calls.len() - 1]));
        ids_whole(version, front);
        version_is_kept(built_by(version, front), calls.last());
    }
}

/// What a builder holds whose file fits 32 bits.
proof fn file_is_described(version: Seq<char>, calls: Seq<PortableCall>)
    requires
        plain_calls(calls),
        built_by(version, calls).finished().built().len() <= 0xFFFF_FFFF,
    ensures
        portable_laws::describes(built_by(version, calls), content_of(version, calls)),
        portable_read_laws::plain_portable(built_by(version, calls)),
        built_by(version, calls).metadata.version == version,
{
    let m = built_by(version, calls);
    let f = m.finished();
    builder_keeps_shape(version, calls);
    ids_whole(version, calls);
    portable_read_laws::finished_shape(m);
    builder_laws::heaps_fit(f);
    builder_laws::rows_bounded(f);
    assert(f.rows[TableIndex::LocalVariable.number() as int].len() < 0xFFFF_FFFF);
    assert(f.rows[TableIndex::LocalConstant.number() as int].len() < 0xFFFF_FFFF);
    builder_holds_what_it_is_told(version, calls);
}

/// The id that was set last, or twenty zero bytes.
pub open spec fn id_set(calls: Seq<PortableCall>) -> Seq<u8>
    decreases calls.len(),
{
    if calls.len() == 0 {
        bytes::zero_bytes(20)
    } else {
        match calls.last() {
            PortableCall::PdbId(id) => id,
            _ => id_set(calls.drop_last()),
        }
    }
}

/// The entry point that was set last, or none.
pub open spec fn entry_set(calls: Seq<PortableCall>) -> Token
    decreases calls.len(),
{
    if calls.len() == 0 {
        Token(0)
    } else {
        match calls.last() {
            PortableCall::EntryPoint(token) => token,
            _ => entry_set(calls.drop_last()),
        }
    }
}

/// Only its own call sets the id or the entry point.
proof fn call_sets(m: PortableModel, call: PortableCall)
    ensures
        after_call(m, call).pdb_id == (match call {
            PortableCall::PdbId(id) => id,
            _ => m.pdb_id,
        }),
        after_call(m, call).entry_point == (match call {
            PortableCall::EntryPoint(token) => token,
            _ => m.entry_point,
        }),
{
    if let PortableCall::Scope(method, import_scope, variables, constants, start, length) = call {
        variables_version(m, variables, variables.len());
        constants_version(
            m.with_variables(variables, variables.len()),
            constants,
            constants.len(),
        );
    }
}

/// A builder has the id and the entry point that were set last.
proof fn last_set_is_kept(version: Seq<char>, calls: Seq<PortableCall>)
    ensures
        built_by(version, calls).pdb_id == id_set(calls),
        built_by(version, calls).entry_point == entry_set(calls),
    decreases calls.len(),
{
    if calls.len() > 0 {
        last_set_is_kept(version, calls.drop_last());
        call_sets(built_by(version, calls.drop_last()), calls.last());
    }
}

/// The file of every builder parses. It has exactly one module row, as many
/// method rows as the largest rid of a method that the builder was told of, and
/// the id and the entry point that were set last; and its `#Pdb` heap records
/// how many rows each table has. This holds as long as the file fits 32 bits.
pub proof fn finished_pdb_parses(version: Seq<char>, calls: Seq<PortableCall>)
    requires
        plain_calls(calls),
        built_by(version, calls).finished().built().len() <= 0xFFFF_FFFF,
    ensures
        portable_reader::parsed_portable(built_by(version, calls).finished().built()) matches Ok(
            md,
        ) && {
            &&& md.version == root::version_read(version)
            &&& md.heaps.pdb matches Some(p) && p.id == id_set(calls) && p.entry_point
                == entry_set(calls).0
            &&& md.rows(TableIndex::Module) == 1
            &&& md.rows(TableIndex::MethodDebugInformation) == largest_rid(version, calls)
            &&& forall|t: TableIndex|
                #![trigger md.rows(t)]
                portable_read_laws::recorded_count(md, t) == md.rows(t)
        },
{
    builder_keeps_shape(version, calls);
    ids_whole(version, calls);
    last_set_is_kept(version, calls);
    portable_read_laws::written_portable_parses(built_by(version, calls));
}

/// A later call keeps what a builder knows of documents.
proof fn document_stays(m: PortableModel, c: PortableContent, call: PortableCall, k: int)
    requires
        m.names.len() == c.documents.len() == m.document_rows.len(),
        0 <= k < c.documents.len(),
    ensures
        content_after(m, c, call).documents.len() >= c.documents.len(),
        content_after(m, c, call).documents[k] == c.documents[k],
{
}

proof fn call_counts_documents(m: PortableModel, c: PortableContent, call: PortableCall)
    requires
        portable_laws::shaped(m),
        m.document_rows.len() == c.documents.len(),
    ensures
        after_call(m, call).document_rows.len() == content_after(m, c, call).documents.len(),
        after_call(m, call).names.len() == content_after(m, c, call).documents.len(),
{
    if let PortableCall::Scope(method, import_scope, variables, constants, start, length) = call {
        if let Some(rid) = portable_writer::method_rid_of(method) {
            scope_shaped(m, rid, import_scope, variables, constants, start, length);
        }
    }
}

/// The content has the documents of the builder.
proof fn documents_counted(version: Seq<char>, calls: Seq<PortableCall>)
    ensures
        built_by(version, calls).document_rows.len() == content_of(version, calls).documents.len(),
        built_by(version, calls).names.len() == content_of(version, calls).documents.len(),
    decreases calls.len(),
{
    if calls.len() > 0 {
        let front = calls.drop_last();
        documents_counted(version, front);
        builder_keeps_shape(version, front);
        call_counts_documents(
            built_by(version, front),
            content_of(version, front),
            calls.last(),
        );
    }
}

/// The document that a call adds stays where it was added.
proof fn document_is_kept(version: Seq<char>, calls: Seq<PortableCall>, i: int)
    requires
        0 <= i < calls.len(),
        calls[i] is Document,
        !known_before(version, calls, i),
    ensures
        document_row(version, calls, i) < content_of(version, calls).documents.len(),
        content_of(version, calls).documents[document_row(version, calls, i)]
            == document_given(calls[i]),
    decreases calls.len(),
{
    let front = calls.drop_last();
    documents_counted(version, front);
    if i < front.len() {
        assert(front.take(i) =~= calls.take(i));
        document_is_kept(version, front, i);
        document_stays(
            built_by(version, front),
            content_of(version, front),
            calls.last(),
            document_row(version, calls, i),
        );
    } else {
        assert(calls.take(i) =~= front);
    }
}

/// A document with the name was added before the call.
pub open spec fn known_before(version: Seq<char>, calls: Seq<PortableCall>, i: int) -> bool {
    portable_writer::name_place(
        built_by(version, calls.take(i)).names,
        document_given(calls[i]).name,
        0,
    ) is Some
}

/// How many documents there were before the call.
pub open spec fn document_row(version: Seq<char>, calls: Seq<PortableCall>, i: int) -> int {
    built_by(version, calls.take(i)).document_rows.len() as int
}

/// The document that a call is about.
pub open spec fn document_given(call: PortableCall) -> DocumentView {
    DocumentView {
        name: call->Document_0,
        hash_algorithm: call->Document_1,
        hash: call->Document_2,
        language: call->Document_3,
    }
}

/// The first document that was added under a name reads back under its handle,
/// with its name, its hash and its language, whatever else the builder was
/// told. This holds as long as the blob heap is small enough for compressed
/// indexes and the file fits 32 bits.
pub proof fn added_document_reads_back(version: Seq<char>, calls: Seq<PortableCall>, i: int)
    requires
        plain_calls(calls),
        0 <= i < calls.len(),
        calls[i] is Document,
        !known_before(version, calls, i),
        built_by(version, calls).finished().blobs.data.len() < 0x4000_0000,
        built_by(version, calls).finished().built().len() <= 0xFFFF_FFFF,
    ensures
        portable_reader::parsed_portable(built_by(version, calls).finished().built()) matches Ok(
            md,
        ) && portable_reader::document_at(md, (document_row(version, calls, i) + 1) as u32) == Ok::<
            DocumentView,
            ErrorKind,
        >(document_given(calls[i])),
        document_row(version, calls, i) + 1 <= 0xFFFF_FFFF,
{
    file_is_described(version, calls);
    document_is_kept(version, calls, i);
    portable_read_laws::written_document_reads_back(
        built_by(version, calls),
        content_of(version, calls),
        document_row(version, calls, i),
    );
}

/// A document whose name was added before changes nothing.
pub proof fn known_document_changes_nothing(version: Seq<char>, calls: Seq<PortableCall>)
    requires
        calls.len() > 0,
        calls.last() is Document,
        known_before(version, calls, calls.len() - 1),
    ensures
        built_by(version, calls) == built_by(version, calls.drop_last()),
        content_of(version, calls) == content_of(version, calls.drop_last()),
{
    assert(calls.take(calls.len() - 1) =~= calls.drop_last());
}

/// The call sets the points of the method.
pub open spec fn sets_points(call: PortableCall, rid: u32) -> bool {
    call matches PortableCall::Points(method, _, _) && portable_writer::method_rid_of(method)
        == Some(rid)
}

/// The points that were set last stay with the method.
proof fn points_are_kept(version: Seq<char>, calls: Seq<PortableCall>, i: int, rid: u32)
    requires
        0 <= i < calls.len(),
        sets_points(calls[i], rid),
        points_taken(built_by(version, calls.take(i)), calls[i]->Points_1, calls[i]->Points_2),
        forall|j: int| i < j < calls.len() ==> !sets_points(#[trigger] calls[j], rid),
    ensures
        1 <= rid <= built_by(version, calls).slots.len(),
        built_by(version, calls).slots[rid - 1] matches Some(s) && s.document
            == calls[i]->Points_1 && s.points == Some(calls[i]->Points_2),
    decreases calls.len(),
{
    let front = calls.drop_last();
    let m = built_by(version, front);
    if i < front.len() {
        assert(front.take(i) =~= calls.take(i));
        assert forall|j: int| i < j < front.len() implies !sets_points(#[trigger] front[j], rid) by {
            assert(front[j] == calls[j]);
        }
        points_are_kept(version, front, i, rid);
        assert(!sets_points(calls[calls.len() - 1], rid));
        match calls.last() {
            PortableCall::Points(method, _, _) => {
                if let Some(other) = portable_writer::method_rid_of(method) {
                    slot_length(m.slots, other);
                }
            },
            PortableCall::Signature(method, _) => {
                if let Some(other) = portable_writer::method_rid_of(method) {
                    slot_length(m.slots, other);
                }
            },
            PortableCall::Scope(method, import_scope, variables, constants, start, length) => {
                builder_keeps_shape(version, front);
                if let Some(other) = portable_writer::method_rid_of(method) {
                    scope_shaped(m, other, import_scope, variables, constants, start, length);
                }
            },
            _ => {},
        }
    } else {
        assert(calls.take(i) =~= front);
        slot_length(m.slots, rid);
    }
}

/// The points that were set last for a method read back as they were given, in
/// order and in their document, whatever else the builder was told. This holds
/// of points with ascending offsets that cover something and whose distances
/// fit compressed integers, as long as the file fits 32 bits.
pub proof fn set_points_read_back(version: Seq<char>, calls: Seq<PortableCall>, i: int, rid: u32)
    requires
        plain_calls(calls),
        0 <= i < calls.len(),
        sets_points(calls[i], rid),
        points_taken(built_by(version, calls.take(i)), calls[i]->Points_1, calls[i]->Points_2),
        forall|j: int| i < j < calls.len() ==> !sets_points(#[trigger] calls[j], rid),
        calls[i]->Points_2.len() > 0,
        sequence_points::regular_points(calls[i]->Points_2),
        sequence_points::encoded_points(
            portable_writer::slot_of(built_by(version, calls).slots, rid).signature,
            calls[i]->Points_2,
        ).len() < 0x4000_0000,
        built_by(version, calls).finished().built().len() <= 0xFFFF_FFFF,
    ensures
        portable_reader::parsed_portable(built_by(version, calls).finished().built()) matches Ok(
            md,
        ) && portable_reader::points_at(md, rid) == Ok::<
            Option<(u32, Seq<(SequencePoint, u32)>)>,
            ErrorKind,
        >(
            Some(
                (
                    calls[i]->Points_1,
                    sequence_points::in_document(calls[i]->Points_2, calls[i]->Points_1),
                ),
            ),
        ),
{
    let m = built_by(version, calls);
    file_is_described(version, calls);
    builder_keeps_shape(version, calls);
    points_are_kept(version, calls, i, rid);
    assert(m.slots[rid - 1] matches Some(s) && s.document <= m.document_rows.len());
    portable_read_laws::written_points_read_back(m, content_of(version, calls), rid);
}

/// The scopes of a method read back in the order in which they were added, with
/// the runs of their variables and constants, whatever else the builder was
/// told. This holds as long as the cells of the scopes fit their columns and
/// the file fits 32 bits.
pub proof fn added_scopes_read_back(version: Seq<char>, calls: Seq<PortableCall>, method: u32)
    requires
        plain_calls(calls),
        portable_read_laws::scopes_fit(built_by(version, calls)),
        built_by(version, calls).finished().built().len() <= 0xFFFF_FFFF,
    ensures
        portable_reader::parsed_portable(built_by(version, calls).finished().built()) matches Ok(
            md,
        ) && portable_reader::scopes_from(md, method, 0) == Ok::<Seq<ScopeView>, ErrorKind>(
            portable_read_laws::scopes_for(content_of(version, calls).scopes, method, 0),
        ),
{
    file_is_described(version, calls);
    portable_read_laws::written_scopes_read_back(
        built_by(version, calls),
        content_of(version, calls),
        method,
    );
}

/// The cells of the scopes fit where the methods fit sixteen bits, the import
/// scopes are ones that were added, and neither the variables nor the constants
/// are just as many as sixteen bits can count.
pub proof fn added_scopes_fit(version: Seq<char>, calls: Seq<PortableCall>)
    requires
        plain_calls(calls),
        built_by(version, calls).finished().built().len() <= 0xFFFF_FFFF,
        forall|k: int|
            #![trigger content_of(version, calls).scopes[k]]
            0 <= k < content_of(version, calls).scopes.len() ==> content_of(
                version,
                calls,
            ).scopes[k].method.row() <= 0xFFFF && content_of(version, calls).scopes[k].import_scope
                <= content_of(version, calls).imports.len(),
        content_of(version, calls).variables.len() != 0xFFFF,
        content_of(version, calls).constants.len() != 0xFFFF,
    ensures
        portable_read_laws::scopes_fit(built_by(version, calls)),
{
    file_is_described(version, calls);
    portable_read_laws::ordinary_scopes_fit(built_by(version, calls), content_of(version, calls));
}

/// The file of every builder parses and gives back, in order, the documents
/// that the builder was told of; one that is named again is not added again.
/// The laws on variables, constants, imports and custom debug information speak
/// of the same content. This holds as long as the blob heap is small enough for
/// compressed indexes and the file fits 32 bits.
pub proof fn finished_pdb_reads_back(version: Seq<char>, calls: Seq<PortableCall>)
    requires
        plain_calls(calls),
        built_by(version, calls).finished().blobs.data.len() < 0x4000_0000,
        built_by(version, calls).finished().built().len() <= 0xFFFF_FFFF,
    ensures
        portable_laws::describes(built_by(version, calls), content_of(version, calls)),
        portable_reader::parsed_portable(built_by(version, calls).finished().built()) matches Ok(
            md,
        ) && portable_reader::documents_from(md, 0) == Ok::<Seq<DocumentView>, ErrorKind>(
            content_of(version, calls).documents,
        ),
{
    file_is_described(version, calls);
    portable_read_laws::written_documents_read_back(
        built_by(version, calls),
        content_of(version, calls),
    );
}

} // verus!
