//! Consuming the frame sequence into a validated in-memory model.  Frames
//! are consumed strictly in stream order: an entity must be declared before
//! anything references it, duplicate declarations are rejected, and the
//! stream must open with a version frame carrying a supported version.
//! Fields that the schema does not recognize never abort the read: they are
//! skipped and recorded, in encounter order, at most once per occurrence.

use vstd::prelude::*;

use crate::errors::ValidationError;
use crate::frames::Field;
use crate::frames::FieldV;
use crate::frames::Frame;
use crate::frames::FrameV;
use crate::frames::le64_val;
use crate::frames::read_u64_le;

verus! {

/// Type tag of the version frame that must open every stream.
pub const FRAME_TAG_VERSION: u8 = 0;

/// Type tag of a frame declaring an entity.
pub const FRAME_TAG_DECLARATION: u8 = 1;

/// Type tag of a frame referencing an earlier entity.
pub const FRAME_TAG_REFERENCE: u8 = 2;

/// Field id of the version number inside a version frame, and of the
/// identifier inside a declaration or reference frame.
pub const FIELD_ID_PRIMARY: u8 = 1;

/// Field id of the optional opaque data blob inside a declaration frame.
pub const FIELD_ID_DATA: u8 = 2;

/// The one schema version this reader supports.
pub const SUPPORTED_VERSION: u64 = 1;

/// Whether the schema recognizes field `id` inside a frame tagged `tag`.
pub open spec fn recognized_field(tag: u8, id: u8) -> bool {
    if tag == FRAME_TAG_VERSION {
        id == FIELD_ID_PRIMARY
    } else if tag == FRAME_TAG_DECLARATION {
        id == FIELD_ID_PRIMARY || id == FIELD_ID_DATA
    } else if tag == FRAME_TAG_REFERENCE {
        id == FIELD_ID_PRIMARY
    } else {
        false
    }
}

/// A location marker for a field skipped because the schema did not
/// recognize it: the index of its frame in the stream and its field id.
#[derive(Clone, Copy, Debug, PartialEq, Eq, Structural)]
pub struct UnknownFieldRecord {
    pub frame_index: u64,
    pub field_id: u8,
}

/// One validated entity of the backup.
#[derive(Debug, PartialEq, Eq)]
pub struct Entity {
    pub id: u64,
    pub data: Vec<u8>,
}

/// The mathematical value of an entity.
pub struct EntityV {
    pub id: u64,
    pub data: Seq<u8>,
}

impl View for Entity {
    type V = EntityV;

    open spec fn view(&self) -> EntityV {
        EntityV { id: self.id, data: self.data@ }
    }
}

/// The root aggregate of validated entities, materialized only when every
/// frame satisfied the structural and referential rules.
#[derive(Debug, PartialEq, Eq)]
pub struct Backup {
    pub version: u64,
    pub entities: Vec<Entity>,
    pub refs: Vec<u64>,
}

/// The mathematical value of a backup.
pub struct BackupV {
    pub version: u64,
    pub entities: Seq<EntityV>,
    pub refs: Seq<u64>,
}

impl View for Backup {
    type V = BackupV;

    open spec fn view(&self) -> BackupV {
        BackupV {
            version: self.version,
            entities: self.entities@.map_values(|e: Entity| e@),
            refs: self.refs@,
        }
    }
}

/// The running state of the builder: the version read from the opening
/// frame, the identifiers declared so far, the accepted entities and
/// references, and the unknown-field reports in encounter order.
pub struct StateV {
    pub version: u64,
    pub ids: Seq<u64>,
    pub entities: Seq<EntityV>,
    pub refs: Seq<u64>,
    pub unknown: Seq<UnknownFieldRecord>,
}

/// The data of the first field with id `id`, in declaration order.
pub open spec fn spec_find_field(fields: Seq<FieldV>, id: u8) -> Option<Seq<u8>>
    decreases fields.len(),
{
    if fields.len() == 0 {
        None
    } else if fields[0].id == id {
        Some(fields[0].data)
    } else {
        spec_find_field(fields.drop_first(), id)
    }
}

/// The unknown-field reports of one frame: one record per unrecognized
/// field, in field order.
pub open spec fn spec_unknown_in(tag: u8, fields: Seq<FieldV>, idx: u64) -> Seq<UnknownFieldRecord>
    decreases fields.len(),
{
    if fields.len() == 0 {
        Seq::empty()
    } else {
        (if recognized_field(tag, fields[0].id) {
            Seq::<UnknownFieldRecord>::empty()
        } else {
            seq![UnknownFieldRecord { frame_index: idx, field_id: fields[0].id }]
        }) + spec_unknown_in(tag, fields.drop_first(), idx)
    }
}

/// Unknown-field reports distribute over concatenation of field sequences.
pub proof fn lemma_unknown_concat(tag: u8, a: Seq<FieldV>, b: Seq<FieldV>, idx: u64)
    ensures
        spec_unknown_in(tag, a + b, idx) == spec_unknown_in(tag, a, idx) + spec_unknown_in(
            tag,
            b,
            idx,
        ),
    decreases a.len(),
{
    if a.len() == 0 {
        assert(a + b =~= b);
        assert(spec_unknown_in(tag, a, idx) + spec_unknown_in(tag, b, idx) =~= spec_unknown_in(
            tag,
            b,
            idx,
        ));
    } else {
        assert((a + b).drop_first() =~= a.drop_first() + b);
        lemma_unknown_concat(tag, a.drop_first(), b, idx);
        assert((a + b)[0] == a[0]);
        assert(spec_unknown_in(tag, a + b, idx) =~= spec_unknown_in(tag, a, idx) + spec_unknown_in(
            tag,
            b,
            idx,
        ));
    }
}

/// What one frame does to the builder state: a declaration adds a fresh
/// identifier and its entity, a reference must name an already declared
/// identifier, a second version frame and an unrecognized type tag are
/// terminal; a surviving frame appends its unknown-field reports.
pub open spec fn spec_step(f: FrameV, idx: u64, st: StateV) -> Result<StateV, ValidationError> {
    if f.tag == FRAME_TAG_VERSION {
        Err(ValidationError::DuplicateVersionFrame)
    } else if f.tag == FRAME_TAG_DECLARATION {
        match spec_find_field(f.fields, FIELD_ID_PRIMARY) {
            Option::None => Err(ValidationError::MissingIdentifierField),
            Option::Some(d) => if d.len() != 8 {
                Err(ValidationError::MalformedIdentifierField)
            } else {
                let id = le64_val(d) as u64;
                if st.ids.contains(id) {
                    Err(ValidationError::DuplicateIdentifier { id })
                } else {
                    let data = match spec_find_field(f.fields, FIELD_ID_DATA) {
                        Option::Some(d2) => d2,
                        Option::None => Seq::<u8>::empty(),
                    };
                    Ok(
                        StateV {
                            version: st.version,
                            ids: st.ids.push(id),
                            entities: st.entities.push(EntityV { id, data }),
                            refs: st.refs,
                            unknown: st.unknown + spec_unknown_in(f.tag, f.fields, idx),
                        },
                    )
                }
            },
        }
    } else if f.tag == FRAME_TAG_REFERENCE {
        match spec_find_field(f.fields, FIELD_ID_PRIMARY) {
            Option::None => Err(ValidationError::MissingReferenceField),
            Option::Some(d) => if d.len() != 8 {
                Err(ValidationError::MalformedReferenceField)
            } else {
                let id = le64_val(d) as u64;
                if !st.ids.contains(id) {
                    Err(ValidationError::DanglingReference { id })
                } else {
                    Ok(
                        StateV {
                            version: st.version,
                            ids: st.ids,
                            entities: st.entities,
                            refs: st.refs.push(id),
                            unknown: st.unknown + spec_unknown_in(f.tag, f.fields, idx),
                        },
                    )
                }
            },
        }
    } else {
        Err(ValidationError::UnrecognizedFrameType { tag: f.tag })
    }
}

/// The version carried by the opening frame, or the violation that the
/// frame exhibits.
pub open spec fn spec_version_of(f: FrameV) -> Result<u64, ValidationError> {
    match spec_find_field(f.fields, FIELD_ID_PRIMARY) {
        Option::None => Err(ValidationError::MissingVersionField),
        Option::Some(d) => if d.len() != 8 {
            Err(ValidationError::MalformedVersionField)
        } else {
            let v = le64_val(d) as u64;
            if v != SUPPORTED_VERSION {
                Err(ValidationError::UnsupportedVersion { version: v })
            } else {
                Ok(v)
            }
        },
    }
}

/// Folds `spec_step` over the frames after the opening one.
pub open spec fn spec_build_from(frames: Seq<FrameV>, idx: u64, st: StateV) -> Result<
    StateV,
    ValidationError,
>
    decreases frames.len(),
{
    if frames.len() == 0 {
        Ok(st)
    } else {
        match spec_step(frames[0], idx, st) {
            Result::Err(e) => Err(e),
            Result::Ok(st2) => spec_build_from(frames.drop_first(), (idx + 1) as u64, st2),
        }
    }
}

/// The outcome of consuming a whole frame sequence: the validated backup and
/// the unknown-field reports, or the first violation.
pub open spec fn spec_build(frames: Seq<FrameV>) -> Result<
    (BackupV, Seq<UnknownFieldRecord>),
    ValidationError,
> {
    if frames.len() == 0 {
        Err(ValidationError::MissingVersionFrame)
    } else if frames[0].tag != FRAME_TAG_VERSION {
        Err(ValidationError::MissingVersionFrame)
    } else {
        match spec_version_of(frames[0]) {
            Result::Err(e) => Err(e),
            Result::Ok(v) => {
                let st0 = StateV {
                    version: v,
                    ids: Seq::empty(),
                    entities: Seq::empty(),
                    refs: Seq::empty(),
                    unknown: spec_unknown_in(FRAME_TAG_VERSION, frames[0].fields, 0),
                };
                match spec_build_from(frames.drop_first(), 1u64, st0) {
                    Result::Err(e) => Err(e),
                    Result::Ok(st) => Ok(
                        (
                            BackupV { version: v, entities: st.entities, refs: st.refs },
                            st.unknown,
                        ),
                    ),
                }
            },
        }
    }
}

/// Finding a field is unaffected by inserting a field with a different id.
pub proof fn lemma_find_field_insert(fields: Seq<FieldV>, i: int, x: FieldV, id: u8)
    requires
        0 <= i <= fields.len(),
        x.id != id,
    ensures
        spec_find_field(fields.insert(i, x), id) == spec_find_field(fields, id),
    decreases fields.len(),
{
    let with_x = fields.insert(i, x);
    if i == 0 {
        assert(with_x[0] == x);
        assert(with_x.drop_first() =~= fields);
    } else {
        assert(with_x[0] == fields[0]);
        if fields[0].id != id {
            assert(with_x.drop_first() =~= fields.drop_first().insert(i - 1, x));
            lemma_find_field_insert(fields.drop_first(), i - 1, x, id);
        }
    }
}

/// Inserting an unrecognized field adds exactly one report, at the position
/// that the recognized/unrecognized split of the surrounding fields gives.
pub proof fn lemma_unknown_insert(tag: u8, fields: Seq<FieldV>, i: int, x: FieldV, idx: u64)
    requires
        0 <= i <= fields.len(),
        !recognized_field(tag, x.id),
    ensures
        spec_unknown_in(tag, fields.insert(i, x), idx) == spec_unknown_in(tag, fields, idx).insert(
            spec_unknown_in(tag, fields.take(i), idx).len() as int,
            UnknownFieldRecord { frame_index: idx, field_id: x.id },
        ),
        spec_unknown_in(tag, fields.take(i), idx).len() <= spec_unknown_in(tag, fields, idx).len(),
{
    let rec = UnknownFieldRecord { frame_index: idx, field_id: x.id };
    let single = seq![x];
    assert(single.drop_first() =~= Seq::<FieldV>::empty());
    assert(spec_unknown_in(tag, Seq::<FieldV>::empty(), idx) == Seq::<
        UnknownFieldRecord,
    >::empty());
    assert(single.len() == 1 && single[0] == x);
    assert(spec_unknown_in(tag, single, idx) =~= seq![rec]);
    assert(fields.insert(i, x) =~= fields.take(i) + single + fields.skip(i));
    assert(fields.take(i) + single + fields.skip(i) =~= fields.take(i) + (single + fields.skip(i)));
    lemma_unknown_concat(tag, fields.take(i), single + fields.skip(i), idx);
    lemma_unknown_concat(tag, single, fields.skip(i), idx);
    assert(fields =~= fields.take(i) + fields.skip(i));
    lemma_unknown_concat(tag, fields.take(i), fields.skip(i), idx);
    let before = spec_unknown_in(tag, fields.take(i), idx);
    let after = spec_unknown_in(tag, fields.skip(i), idx);
    assert(spec_unknown_in(tag, fields.insert(i, x), idx) =~= before + (seq![rec] + after));
    assert(before + (seq![rec] + after) =~= (before + after).insert(before.len() as int, rec));
}

/// What one unrecognized extra field does to one step: the violation, if
/// any, is unchanged; an accepted frame yields the same identifiers,
/// entities and references, and exactly one extra unknown-field report at
/// the position the surrounding fields give.
pub proof fn lemma_step_insert(f: FrameV, i: int, x: FieldV, idx: u64, st: StateV)
    requires
        0 <= i <= f.fields.len(),
        !recognized_field(f.tag, x.id),
    ensures
        ({
            let f2 = FrameV { tag: f.tag, fields: f.fields.insert(i, x) };
            let rec = UnknownFieldRecord { frame_index: idx, field_id: x.id };
            let pos = st.unknown.len() + spec_unknown_in(f.tag, f.fields.take(i), idx).len();
            match spec_step(f, idx, st) {
                Result::Err(e) => spec_step(f2, idx, st) == Result::<StateV, ValidationError>::Err(
                    e,
                ),
                Result::Ok(st1) => spec_step(f2, idx, st) matches Ok(st2) && st2.version
                    == st1.version && st2.ids == st1.ids && st2.entities == st1.entities
                    && st2.refs == st1.refs && pos <= st1.unknown.len() && st2.unknown
                    == st1.unknown.insert(pos as int, rec),
            }
        }),
{
    let f2 = FrameV { tag: f.tag, fields: f.fields.insert(i, x) };
    let rec = UnknownFieldRecord { frame_index: idx, field_id: x.id };
    if f.tag == FRAME_TAG_DECLARATION || f.tag == FRAME_TAG_REFERENCE {
        assert(x.id != FIELD_ID_PRIMARY);
        lemma_find_field_insert(f.fields, i, x, FIELD_ID_PRIMARY);
        if f.tag == FRAME_TAG_DECLARATION {
            assert(x.id != FIELD_ID_DATA);
            lemma_find_field_insert(f.fields, i, x, FIELD_ID_DATA);
        }
        lemma_unknown_insert(f.tag, f.fields, i, x, idx);
        match spec_step(f, idx, st) {
            Result::Err(_) => {},
            Result::Ok(st1) => {
                let before = spec_unknown_in(f.tag, f.fields.take(i), idx);
                let whole = spec_unknown_in(f.tag, f.fields, idx);
                assert(st.unknown + whole.insert(before.len() as int, rec) =~= (st.unknown
                    + whole).insert((st.unknown.len() + before.len()) as int, rec));
            },
        }
    }
}

/// Runs of the builder from two states that differ only in the reports
/// gathered so far stay in lock step: the same violation, or the same
/// identifiers, entities and references, with the reports that the frames
/// contribute appended after each starting report list.
pub proof fn lemma_build_from_congruence(frames: Seq<FrameV>, idx: u64, st1: StateV, st2: StateV)
    requires
        st1.version == st2.version,
        st1.ids == st2.ids,
        st1.entities == st2.entities,
        st1.refs == st2.refs,
    ensures
        match spec_build_from(frames, idx, st1) {
            Result::Err(e) => spec_build_from(frames, idx, st2) == Result::<
                StateV,
                ValidationError,
            >::Err(e),
            Result::Ok(r1) => spec_build_from(frames, idx, st2) matches Ok(r2) && r2.version
                == r1.version && r2.ids == r1.ids && r2.entities == r1.entities && r2.refs
                == r1.refs && st1.unknown.len() <= r1.unknown.len() && r1.unknown.take(
                st1.unknown.len() as int,
            ) == st1.unknown && r2.unknown == st2.unknown + r1.unknown.skip(
                st1.unknown.len() as int,
            ),
        },
    decreases frames.len(),
{
    if frames.len() == 0 {
        assert(st1.unknown.take(st1.unknown.len() as int) =~= st1.unknown);
        assert(st2.unknown + st1.unknown.skip(st1.unknown.len() as int) =~= st2.unknown);
    } else {
        let f = frames[0];
        match spec_step(f, idx, st1) {
            Result::Err(_) => {},
            Result::Ok(m1) => {
                let contributed = spec_unknown_in(f.tag, f.fields, idx);
                let m2 = spec_step(f, idx, st2)->Ok_0;
                lemma_build_from_congruence(frames.drop_first(), (idx + 1) as u64, m1, m2);
                match spec_build_from(frames.drop_first(), (idx + 1) as u64, m1) {
                    Result::Err(_) => {},
                    Result::Ok(r1) => {
                        let r2 = spec_build_from(frames.drop_first(), (idx + 1) as u64, m2)->Ok_0;
                        assert(m1.unknown == st1.unknown + contributed);
                        assert(m2.unknown == st2.unknown + contributed);
                        assert(r1.unknown.take(m1.unknown.len() as int) == m1.unknown);
                        assert forall|k: int| 0 <= k < m1.unknown.len() implies r1.unknown[k]
                            == m1.unknown[k] by {
                            assert(r1.unknown.take(m1.unknown.len() as int)[k] == m1.unknown[k]);
                        }
                        assert(r1.unknown.take(st1.unknown.len() as int) =~= st1.unknown);
                        assert(r1.unknown.skip(st1.unknown.len() as int) =~= contributed
                            + r1.unknown.skip(m1.unknown.len() as int));
                        assert(r2.unknown =~= st2.unknown + r1.unknown.skip(
                            st1.unknown.len() as int,
                        ));
                    },
                }
            },
        }
    }
}

/// Whether `augmented` is `base` with the single report `rec` inserted at
/// some position: exactly one extra report, everything else in order.
pub open spec fn reports_with_one_extra(
    base: Seq<UnknownFieldRecord>,
    augmented: Seq<UnknownFieldRecord>,
    rec: UnknownFieldRecord,
) -> bool {
    exists|pos: int| 0 <= pos <= base.len() && augmented == base.insert(pos, rec)
}

/// Lifts `lemma_step_insert` to a run: inserting one unrecognized field
/// into the frame at position `j` leaves every violation unchanged; on
/// success the identifiers, entities and references are identical, and
/// exactly one extra report appears.
pub proof fn lemma_build_from_insert(
    frames: Seq<FrameV>,
    j: int,
    i: int,
    x: FieldV,
    idx: u64,
    st: StateV,
)
    requires
        0 <= j < frames.len(),
        0 <= i <= frames[j].fields.len(),
        !recognized_field(frames[j].tag, x.id),
        idx + frames.len() <= u64::MAX,
    ensures
        ({
            let f2 = FrameV { tag: frames[j].tag, fields: frames[j].fields.insert(i, x) };
            let frames2 = frames.update(j, f2);
            let rec = UnknownFieldRecord { frame_index: (idx + j) as u64, field_id: x.id };
            match spec_build_from(frames, idx, st) {
                Result::Err(e) => spec_build_from(frames2, idx, st) == Result::<
                    StateV,
                    ValidationError,
                >::Err(e),
                Result::Ok(r1) => spec_build_from(frames2, idx, st) matches Ok(r2) && r2.version
                    == r1.version && r2.ids == r1.ids && r2.entities == r1.entities && r2.refs
                    == r1.refs && reports_with_one_extra(r1.unknown, r2.unknown, rec),
            }
        }),
    decreases j,
{
    let f2 = FrameV { tag: frames[j].tag, fields: frames[j].fields.insert(i, x) };
    let frames2 = frames.update(j, f2);
    let rec = UnknownFieldRecord { frame_index: (idx + j) as u64, field_id: x.id };
    if j == 0 {
        lemma_step_insert(frames[0], i, x, idx, st);
        assert(frames2[0] == f2);
        assert(frames2.drop_first() =~= frames.drop_first());
        match spec_step(frames[0], idx, st) {
            Result::Err(_) => {},
            Result::Ok(m1) => {
                let m2 = spec_step(f2, idx, st)->Ok_0;
                let pos = st.unknown.len() + spec_unknown_in(
                    frames[0].tag,
                    frames[0].fields.take(i),
                    idx,
                ).len();
                lemma_build_from_congruence(frames.drop_first(), (idx + 1) as u64, m1, m2);
                match spec_build_from(frames.drop_first(), (idx + 1) as u64, m1) {
                    Result::Err(_) => {},
                    Result::Ok(r1) => {
                        let r2 = spec_build_from(frames2.drop_first(), (idx + 1) as u64, m2)->Ok_0;
                        assert forall|t: int| 0 <= t < m1.unknown.len() implies r1.unknown[t]
                            == m1.unknown[t] by {
                            assert(r1.unknown.take(m1.unknown.len() as int)[t] == m1.unknown[t]);
                        }
                        assert(r2.unknown =~= r1.unknown.insert(pos as int, rec));
                        assert(0 <= pos <= r1.unknown.len());
                        assert(reports_with_one_extra(r1.unknown, r2.unknown, rec)) by {
                            assert(r2.unknown == r1.unknown.insert(pos as int, rec));
                        }
                    },
                }
            },
        }
    } else {
        assert(frames2[0] == frames[0]);
        match spec_step(frames[0], idx, st) {
            Result::Err(_) => {},
            Result::Ok(m) => {
                assert(frames.drop_first()[j - 1] == frames[j]);
                assert(frames2.drop_first() =~= frames.drop_first().update(j - 1, f2));
                lemma_build_from_insert(frames.drop_first(), j - 1, i, x, (idx + 1) as u64, m);
            },
        }
    }
}

/// Forward compatibility: inserting one field that the schema does not
/// recognize into any frame of an otherwise valid stream leaves the
/// validated backup identical and adds exactly one unknown-field report,
/// carrying the index of that frame and the id of that field; and it leaves
/// every violation of an invalid stream unchanged.
pub proof fn lemma_forward_compatibility(frames: Seq<FrameV>, k: int, i: int, x: FieldV)
    requires
        0 <= k < frames.len(),
        0 <= i <= frames[k].fields.len(),
        !recognized_field(frames[k].tag, x.id),
        frames.len() <= u64::MAX - 1,
    ensures
        ({
            let frames2 = frames.update(
                k,
                FrameV { tag: frames[k].tag, fields: frames[k].fields.insert(i, x) },
            );
            let rec = UnknownFieldRecord { frame_index: k as u64, field_id: x.id };
            match spec_build(frames) {
                Result::Err(e) => spec_build(frames2) == Result::<
                    (BackupV, Seq<UnknownFieldRecord>),
                    ValidationError,
                >::Err(e),
                Result::Ok(p1) => spec_build(frames2) matches Ok(p2) && p2.0 == p1.0
                    && reports_with_one_extra(p1.1, p2.1, rec),
            }
        }),
{
    let f2 = FrameV { tag: frames[k].tag, fields: frames[k].fields.insert(i, x) };
    let frames2 = frames.update(k, f2);
    assert(frames2.len() == frames.len());
    if k == 0 {
        assert(frames2[0] == f2);
        if frames[0].tag == FRAME_TAG_VERSION {
            assert(x.id != FIELD_ID_PRIMARY);
            lemma_find_field_insert(frames[0].fields, i, x, FIELD_ID_PRIMARY);
            match spec_version_of(frames[0]) {
                Result::Err(_) => {},
                Result::Ok(v) => {
                    lemma_unknown_insert(FRAME_TAG_VERSION, frames[0].fields, i, x, 0);
                    let st0 = StateV {
                        version: v,
                        ids: Seq::empty(),
                        entities: Seq::empty(),
                        refs: Seq::empty(),
                        unknown: spec_unknown_in(FRAME_TAG_VERSION, frames[0].fields, 0),
                    };
                    let st0b = StateV {
                        version: v,
                        ids: Seq::empty(),
                        entities: Seq::empty(),
                        refs: Seq::empty(),
                        unknown: spec_unknown_in(FRAME_TAG_VERSION, f2.fields, 0),
                    };
                    let pos = spec_unknown_in(FRAME_TAG_VERSION, frames[0].fields.take(i), 0).len();
                    assert(st0b.unknown == st0.unknown.insert(
                        pos as int,
                        UnknownFieldRecord { frame_index: 0, field_id: x.id },
                    ));
                    assert(frames2.drop_first() =~= frames.drop_first());
                    lemma_build_from_congruence(frames.drop_first(), 1u64, st0, st0b);
                    match spec_build_from(frames.drop_first(), 1u64, st0) {
                        Result::Err(_) => {},
                        Result::Ok(r1) => {
                            let r2 = spec_build_from(frames2.drop_first(), 1u64, st0b)->Ok_0;
                            assert forall|t: int| 0 <= t < st0.unknown.len() implies r1.unknown[t]
                                == st0.unknown[t] by {
                                assert(r1.unknown.take(st0.unknown.len() as int)[t]
                                    == st0.unknown[t]);
                            }
                            assert(r2.unknown =~= r1.unknown.insert(
                                pos as int,
                                UnknownFieldRecord { frame_index: 0, field_id: x.id },
                            ));
                            assert(0 <= pos <= r1.unknown.len());
                            let rec = UnknownFieldRecord { frame_index: k as u64, field_id: x.id };
                            assert(spec_build(frames) == Result::<
                                (BackupV, Seq<UnknownFieldRecord>),
                                ValidationError,
                            >::Ok(
                                (
                                    BackupV {
                                        version: v,
                                        entities: r1.entities,
                                        refs: r1.refs,
                                    },
                                    r1.unknown,
                                ),
                            ));
                            assert(spec_build(frames2) == Result::<
                                (BackupV, Seq<UnknownFieldRecord>),
                                ValidationError,
                            >::Ok(
                                (
                                    BackupV {
                                        version: v,
                                        entities: r2.entities,
                                        refs: r2.refs,
                                    },
                                    r2.unknown,
                                ),
                            ));
                            assert(reports_with_one_extra(r1.unknown, r2.unknown, rec)) by {
                                assert(r2.unknown == r1.unknown.insert(pos as int, rec));
                            }
                        },
                    }
                },
            }
        }
    } else {
        assert(frames2[0] == frames[0]);
        if frames[0].tag == FRAME_TAG_VERSION {
            match spec_version_of(frames[0]) {
                Result::Err(_) => {},
                Result::Ok(v) => {
                    let st0 = StateV {
                        version: v,
                        ids: Seq::empty(),
                        entities: Seq::empty(),
                        refs: Seq::empty(),
                        unknown: spec_unknown_in(FRAME_TAG_VERSION, frames[0].fields, 0),
                    };
                    assert(frames.drop_first()[k - 1] == frames[k]);
                    assert(frames2.drop_first() =~= frames.drop_first().update(k - 1, f2));
                    lemma_build_from_insert(frames.drop_first(), k - 1, i, x, 1u64, st0);
                    let rec = UnknownFieldRecord { frame_index: k as u64, field_id: x.id };
                    match spec_build_from(frames.drop_first(), 1u64, st0) {
                        Result::Err(_) => {},
                        Result::Ok(r1) => {
                            let r2 = spec_build_from(frames2.drop_first(), 1u64, st0)->Ok_0;
                            assert(reports_with_one_extra(r1.unknown, r2.unknown, rec));
                            assert(spec_build(frames) == Result::<
                                (BackupV, Seq<UnknownFieldRecord>),
                                ValidationError,
                            >::Ok(
                                (
                                    BackupV {
                                        version: v,
                                        entities: r1.entities,
                                        refs: r1.refs,
                                    },
                                    r1.unknown,
                                ),
                            ));
                            assert(spec_build(frames2) == Result::<
                                (BackupV, Seq<UnknownFieldRecord>),
                                ValidationError,
                            >::Ok(
                                (
                                    BackupV {
                                        version: v,
                                        entities: r2.entities,
                                        refs: r2.refs,
                                    },
                                    r2.unknown,
                                ),
                            ));
                        },
                    }
                },
            }
        }
    }
}

/// A caller-injected hook invoked once per accepted frame, for tracing or
/// debugging only.  The builder never reads the visitor's state, so its side
/// effects cannot influence the validation outcome.
pub trait FrameVisitor {
    fn on_frame(&mut self, index: u64, frame: &Frame);
}

/// The default visitor: does nothing.
pub struct NoopVisitor;

impl FrameVisitor for NoopVisitor {
    fn on_frame(&mut self, _index: u64, _frame: &Frame) {
    }
}

/// Finds the first field with id `id`, returning its position.
fn find_field_index(fields: &Vec<Field>, id: u8) -> (r: Option<usize>)
    ensures
        match spec_find_field(fields@.map_values(|f: Field| f@), id) {
            Option::Some(d) => r matches Some(k) && k < fields@.len() && fields@[k as int].id == id
                && fields@[k as int].data@ == d,
            Option::None => r is None,
        },
{
    let ghost fsv = fields@.map_values(|f: Field| f@);
    let mut i: usize = 0;
    proof {
        assert(fsv.skip(0) =~= fsv);
    }
    while i < fields.len()
        invariant
            i <= fields@.len(),
            fsv == fields@.map_values(|f: Field| f@),
            spec_find_field(fsv, id) == spec_find_field(fsv.skip(i as int), id),
        decreases fields@.len() - i,
    {
        if fields[i].id == id {
            proof {
                assert(fsv.skip(i as int)[0] == fsv[i as int]);
            }
            return Some(i);
        }
        proof {
            assert(fsv.skip(i as int)[0] == fsv[i as int]);
            assert(fsv.skip(i as int).drop_first() =~= fsv.skip(i as int + 1));
        }
        i = i + 1;
    }
    proof {
        assert(fsv.skip(i as int) =~= Seq::<FieldV>::empty());
    }
    None
}

/// Whether `ids` already holds `id`.
fn contains_id(ids: &Vec<u64>, id: u64) -> (r: bool)
    ensures
        r == ids@.contains(id),
{
    let mut i: usize = 0;
    while i < ids.len()
        invariant
            i <= ids@.len(),
            forall|j: int| 0 <= j < i ==> ids@[j] != id,
        decreases ids@.len() - i,
    {
        if ids[i] == id {
            return true;
        }
        i = i + 1;
    }
    proof {
        assert(!ids@.contains(id));
    }
    false
}

/// Appends the unknown-field reports of one frame to `acc`, in field order.
fn collect_unknown(tag: u8, fields: &Vec<Field>, idx: u64, acc: &mut Vec<UnknownFieldRecord>)
    ensures
        final(acc)@ == old(acc)@ + spec_unknown_in(tag, fields@.map_values(|f: Field| f@), idx),
{
    let ghost fsv = fields@.map_values(|f: Field| f@);
    let mut i: usize = 0;
    proof {
        assert(fsv.take(0) =~= Seq::<FieldV>::empty());
        assert(old(acc)@ + spec_unknown_in(tag, fsv.take(0), idx) =~= old(acc)@);
    }
    while i < fields.len()
        invariant
            i <= fields@.len(),
            fsv == fields@.map_values(|f: Field| f@),
            acc@ == old(acc)@ + spec_unknown_in(tag, fsv.take(i as int), idx),
        decreases fields@.len() - i,
    {
        let f = &fields[i];
        let recognized: bool = if tag == FRAME_TAG_VERSION {
            f.id == FIELD_ID_PRIMARY
        } else if tag == FRAME_TAG_DECLARATION {
            f.id == FIELD_ID_PRIMARY || f.id == FIELD_ID_DATA
        } else if tag == FRAME_TAG_REFERENCE {
            f.id == FIELD_ID_PRIMARY
        } else {
            false
        };
        proof {
            assert(recognized == recognized_field(tag, fsv[i as int].id));
        }
        if !recognized {
            acc.push(UnknownFieldRecord { frame_index: idx, field_id: f.id });
        }
        proof {
            let single = fsv.subrange(i as int, i as int + 1);
            lemma_unknown_concat(tag, fsv.take(i as int), single, idx);
            assert(fsv.take(i as int) + single =~= fsv.take(i as int + 1));
            assert(single.drop_first() =~= Seq::<FieldV>::empty());
            assert(spec_unknown_in(tag, Seq::<FieldV>::empty(), idx) == Seq::<
                UnknownFieldRecord,
            >::empty());
            assert(single[0] == fsv[i as int]);
            assert(single.len() == 1);
            if recognized_field(tag, fsv[i as int].id) {
                assert(spec_unknown_in(tag, single, idx) =~= Seq::<UnknownFieldRecord>::empty());
            } else {
                assert(spec_unknown_in(tag, single, idx) =~= seq![
                    UnknownFieldRecord { frame_index: idx, field_id: fsv[i as int].id },
                ]);
            }
            assert(acc@ =~= old(acc)@ + spec_unknown_in(tag, fsv.take(i as int + 1), idx));
        }
        i = i + 1;
    }
    proof {
        assert(fsv.take(fsv.len() as int) =~= fsv);
    }
}

/// Consumes the frames strictly in stream order, invoking `visitor` once per
/// accepted frame, and produces the validated backup with the unknown-field
/// reports, or the first violation.  On failure the report list is empty:
/// warnings are collected alongside success only, and no partial backup is
/// ever returned.
#[verifier::loop_isolation(false)]
pub fn build_backup<V: FrameVisitor>(frames: &Vec<Frame>, visitor: &mut V) -> (r: (
    Result<Backup, ValidationError>,
    Vec<UnknownFieldRecord>,
))
    ensures
        match spec_build(frames@.map_values(|f: Frame| f@)) {
            Result::Ok(p) => r.0 matches Ok(b) && b@ == p.0 && r.1@ == p.1,
            Result::Err(e) => r.0 == Result::<Backup, ValidationError>::Err(e) && r.1@ == Seq::<
                UnknownFieldRecord,
            >::empty(),
        },
{
    let ghost fsv = frames@.map_values(|f: Frame| f@);
    let empty_reports: Vec<UnknownFieldRecord> = Vec::new();
    if frames.len() == 0 {
        return (Err(ValidationError::MissingVersionFrame), empty_reports);
    }
    let first = &frames[0];
    if first.tag != FRAME_TAG_VERSION {
        return (Err(ValidationError::MissingVersionFrame), empty_reports);
    }
    let version: u64 = match find_field_index(&first.fields, FIELD_ID_PRIMARY) {
        Option::None => {
            return (Err(ValidationError::MissingVersionField), empty_reports);
        },
        Option::Some(k) => {
            let d = &first.fields[k].data;
            if d.len() != 8 {
                return (Err(ValidationError::MalformedVersionField), empty_reports);
            }
            let v = read_u64_le(d.as_slice());
            if v != SUPPORTED_VERSION {
                return (Err(ValidationError::UnsupportedVersion { version: v }), empty_reports);
            }
            v
        },
    };
    let mut ids: Vec<u64> = Vec::new();
    let mut entities: Vec<Entity> = Vec::new();
    let mut refs: Vec<u64> = Vec::new();
    let mut unknown: Vec<UnknownFieldRecord> = Vec::new();
    collect_unknown(FRAME_TAG_VERSION, &first.fields, 0, &mut unknown);
    visitor.on_frame(0, first);
    let ghost st0 = StateV {
        version,
        ids: Seq::empty(),
        entities: Seq::empty(),
        refs: Seq::empty(),
        unknown: spec_unknown_in(FRAME_TAG_VERSION, fsv[0].fields, 0),
    };
    proof {
        assert(Seq::<UnknownFieldRecord>::empty() + spec_unknown_in(
            FRAME_TAG_VERSION,
            fsv[0].fields,
            0,
        ) =~= spec_unknown_in(FRAME_TAG_VERSION, fsv[0].fields, 0));
        assert(ids@ =~= st0.ids);
        assert(entities@.map_values(|e: Entity| e@) =~= st0.entities);
        assert(refs@ =~= st0.refs);
        assert(fsv.skip(1) =~= fsv.drop_first());
    }
    let mut i: usize = 1;
    while i < frames.len()
        invariant
            1 <= i <= frames@.len(),
            fsv == frames@.map_values(|f: Frame| f@),
            version == st0.version,
            spec_build_from(fsv.drop_first(), 1u64, st0) == spec_build_from(
                fsv.skip(i as int),
                i as u64,
                StateV {
                    version,
                    ids: ids@,
                    entities: entities@.map_values(|e: Entity| e@),
                    refs: refs@,
                    unknown: unknown@,
                },
            ),
        decreases frames@.len() - i,
    {
        let ghost st_pre = StateV {
            version,
            ids: ids@,
            entities: entities@.map_values(|e: Entity| e@),
            refs: refs@,
            unknown: unknown@,
        };
        let frame = &frames[i];
        proof {
            assert(fsv.skip(i as int)[0] == fsv[i as int]);
            assert(fsv.skip(i as int).drop_first() =~= fsv.skip(i as int + 1));
        }
        if frame.tag == FRAME_TAG_VERSION {
            return (Err(ValidationError::DuplicateVersionFrame), empty_reports);
        } else if frame.tag == FRAME_TAG_DECLARATION {
            let k = match find_field_index(&frame.fields, FIELD_ID_PRIMARY) {
                Option::None => {
                    return (Err(ValidationError::MissingIdentifierField), empty_reports);
                },
                Option::Some(k) => k,
            };
            let d = &frame.fields[k].data;
            if d.len() != 8 {
                return (Err(ValidationError::MalformedIdentifierField), empty_reports);
            }
            let id = read_u64_le(d.as_slice());
            if contains_id(&ids, id) {
                return (Err(ValidationError::DuplicateIdentifier { id }), empty_reports);
            }
            let data: Vec<u8> = match find_field_index(&frame.fields, FIELD_ID_DATA) {
                Option::Some(k2) => vstd::slice::slice_to_vec(frame.fields[k2].data.as_slice()),
                Option::None => Vec::new(),
            };
            proof {
                assert(data@ == (match spec_find_field(fsv[i as int].fields, FIELD_ID_DATA) {
                    Option::Some(d2) => d2,
                    Option::None => Seq::<u8>::empty(),
                }));
            }
            ids.push(id);
            entities.push(Entity { id, data });
            collect_unknown(FRAME_TAG_DECLARATION, &frame.fields, i as u64, &mut unknown);
            proof {
                assert(entities@.map_values(|e: Entity| e@) =~= st_pre.entities.push(
                    EntityV {
                        id,
                        data: (match spec_find_field(fsv[i as int].fields, FIELD_ID_DATA) {
                            Option::Some(d2) => d2,
                            Option::None => Seq::<u8>::empty(),
                        }),
                    },
                ));
                assert(spec_step(fsv[i as int], i as u64, st_pre) == Result::<
                    StateV,
                    ValidationError,
                >::Ok(
                    StateV {
                        version,
                        ids: ids@,
                        entities: entities@.map_values(|e: Entity| e@),
                        refs: refs@,
                        unknown: unknown@,
                    },
                ));
            }
        } else if frame.tag == FRAME_TAG_REFERENCE {
            let k = match find_field_index(&frame.fields, FIELD_ID_PRIMARY) {
                Option::None => {
                    return (Err(ValidationError::MissingReferenceField), empty_reports);
                },
                Option::Some(k) => k,
            };
            let d = &frame.fields[k].data;
            if d.len() != 8 {
                return (Err(ValidationError::MalformedReferenceField), empty_reports);
            }
            let id = read_u64_le(d.as_slice());
            if !contains_id(&ids, id) {
                return (Err(ValidationError::DanglingReference { id }), empty_reports);
            }
            refs.push(id);
            collect_unknown(FRAME_TAG_REFERENCE, &frame.fields, i as u64, &mut unknown);
            proof {
                assert(spec_step(fsv[i as int], i as u64, st_pre) == Result::<
                    StateV,
                    ValidationError,
                >::Ok(
                    StateV {
                        version,
                        ids: ids@,
                        entities: entities@.map_values(|e: Entity| e@),
                        refs: refs@,
                        unknown: unknown@,
                    },
                ));
            }
        } else {
            return (Err(ValidationError::UnrecognizedFrameType { tag: frame.tag }), empty_reports);
        }
        visitor.on_frame(i as u64, frame);
        i = i + 1;
    }
    proof {
        assert(fsv.skip(i as int) =~= Seq::<FrameV>::empty());
    }
    let backup = Backup { version, entities, refs };
    (Ok(backup), unknown)
}

} // verus!
