//! The comparator engine: per-schema sub-checks that walk two schemas in
//! parallel and reduce structural differences to a compatibility verdict.

use vstd::prelude::*;

use crate::compatibility::{get_compatibility_from_current_and_new_level, meet, CompatibilityLevel};
use crate::evolution::partial_compatibility_for_types::{
    bag_verdict, check_vec, composite_verdict, view_opt_ref,
};
use crate::evolution::{EvolutionError, PartialCompatibility, SchemaValidator};
use crate::types::{
    message_header_name, message_header_v, view_opt_seq, view_seq, CloneView, Composite,
    CompositeV, EnumType, EnumTypeV, Field, Group, Message, MessageV, Schema, SchemaV, SetType,
    SetTypeV, Types, TypesV,
};

verus! {

/// The verdict of comparing the version attributes of the two schemas: a
/// missing version on either side is an error; an unchanged version is
/// `NoChange`; a bump by exactly one is `Full`; any other change is
/// `Incompatible`.
pub open spec fn version_verdict(latest: Option<u32>, current: Option<u32>) -> Result<
    CompatibilityLevel,
    EvolutionError,
> {
    match (latest, current) {
        (Some(l), Some(c)) => Ok(
            if c == l {
                CompatibilityLevel::NoChange
            } else if c == l + 1 {
                CompatibilityLevel::Full
            } else {
                CompatibilityLevel::Incompatible
            },
        ),
        _ => Err(EvolutionError::MissingVersion),
    }
}

/// The verdict of comparing the two message header composites: both schemas
/// must declare one, and the verdict is their partial compatibility.
pub open spec fn header_verdict(l: SchemaV, c: SchemaV) -> Result<
    CompatibilityLevel,
    EvolutionError,
> {
    match (message_header_v(l), message_header_v(c)) {
        (Some(lh), Some(ch)) => Ok(composite_verdict(ch, lh)),
        _ => Err(EvolutionError::MissingMessageHeader),
    }
}

/// The composites declared in one types block, the message header excluded.
pub open spec fn block_composites(t: TypesV) -> Seq<CompositeV> {
    match t.composites {
        Some(cs) => cs.filter(|c: CompositeV| c.name != message_header_name()),
        None => Seq::empty(),
    }
}

/// The enums declared in one types block.
pub open spec fn block_enums(t: TypesV) -> Seq<EnumTypeV> {
    match t.enums {
        Some(es) => es,
        None => Seq::empty(),
    }
}

/// The sets declared in one types block.
pub open spec fn block_sets(t: TypesV) -> Seq<SetTypeV> {
    match t.sets {
        Some(ss) => ss,
        None => Seq::empty(),
    }
}

/// All composites of a schema's types blocks, flattened, the message header
/// excluded.
pub open spec fn flat_composites(ts: Seq<TypesV>) -> Seq<CompositeV> {
    ts.map_values(|t: TypesV| block_composites(t)).flatten()
}

/// All enums of a schema's types blocks, flattened.
pub open spec fn flat_enums(ts: Seq<TypesV>) -> Seq<EnumTypeV> {
    ts.map_values(|t: TypesV| block_enums(t)).flatten()
}

/// All sets of a schema's types blocks, flattened.
pub open spec fn flat_sets(ts: Seq<TypesV>) -> Seq<SetTypeV> {
    ts.map_values(|t: TypesV| block_sets(t)).flatten()
}

/// The flattened composites of a schema, absent when the schema has no
/// types section at all.
pub open spec fn flat_composites_opt(o: Option<Seq<TypesV>>) -> Option<Seq<CompositeV>> {
    match o {
        Some(ts) => Some(flat_composites(ts)),
        None => None,
    }
}

/// The flattened enums of a schema, absent when the schema has no types
/// section at all.
pub open spec fn flat_enums_opt(o: Option<Seq<TypesV>>) -> Option<Seq<EnumTypeV>> {
    match o {
        Some(ts) => Some(flat_enums(ts)),
        None => None,
    }
}

/// The flattened sets of a schema, absent when the schema has no types
/// section at all.
pub open spec fn flat_sets_opt(o: Option<Seq<TypesV>>) -> Option<Seq<SetTypeV>> {
    match o {
        Some(ts) => Some(flat_sets(ts)),
        None => None,
    }
}

/// The verdict of comparing the type definitions of the two schemas: the
/// flattened bags of composites, enums and sets are each compared by the bag
/// comparator and the three sub-verdicts are folded with the lattice meet.
pub open spec fn types_verdict(l: SchemaV, c: SchemaV) -> CompatibilityLevel {
    meet(
        meet(
            bag_verdict::<Composite>(flat_composites_opt(c.types), flat_composites_opt(l.types)),
            bag_verdict::<EnumType>(flat_enums_opt(c.types), flat_enums_opt(l.types)),
        ),
        bag_verdict::<SetType>(flat_sets_opt(c.types), flat_sets_opt(l.types)),
    )
}

/// The first message of `ms` carrying the given id, if any.
pub open spec fn msg_by_id(ms: Seq<MessageV>, id: u32) -> Option<MessageV>
    decreases ms.len(),
{
    if ms.len() == 0 {
        None
    } else if ms[0].id == id {
        Some(ms[0])
    } else {
        msg_by_id(ms.drop_first(), id)
    }
}

/// Whether `ms` holds a message carrying the given id.
pub open spec fn has_msg_id(ms: Seq<MessageV>, id: u32) -> bool {
    exists|i: int| 0 <= i < ms.len() && (#[trigger] ms[i]).id == id
}

/// A message is found by id exactly when searching for it succeeds.
pub proof fn lemma_msg_by_id_some(ms: Seq<MessageV>, id: u32)
    ensures
        (msg_by_id(ms, id) is Some) == has_msg_id(ms, id),
    decreases ms.len(),
{
    if ms.len() > 0 {
        if ms[0].id == id {
        } else {
            lemma_msg_by_id_some(ms.drop_first(), id);
            if has_msg_id(ms.drop_first(), id) {
                let k = choose|k: int|
                    0 <= k < ms.drop_first().len() && ms.drop_first()[k].id == id;
                assert(ms[k + 1].id == id);
            }
            if has_msg_id(ms, id) {
                let k = choose|k: int| 0 <= k < ms.len() && ms[k].id == id;
                assert(k != 0);
                assert(ms.drop_first()[k - 1].id == id);
            }
        }
    }
}

/// The verdict of comparing two messages matched by id: the field bag and
/// the group bag are compared and the two sub-verdicts are folded with the
/// lattice meet.
pub open spec fn message_pair_verdict(current: MessageV, latest: MessageV) -> CompatibilityLevel {
    meet(
        bag_verdict::<Field>(current.fields, latest.fields),
        bag_verdict::<Group>(current.groups, latest.groups),
    )
}

/// The verdict that one latest message adds to the fold: the pair verdict
/// if the current schema still carries its id, and `Backward` if not.
pub open spec fn latest_message_level(c: Seq<MessageV>, lm: MessageV) -> CompatibilityLevel {
    match msg_by_id(c, lm.id) {
        Some(cm) => message_pair_verdict(cm, lm),
        None => CompatibilityLevel::Backward,
    }
}

/// The meet of the contributions of all latest messages.
pub open spec fn matched_messages_level(c: Seq<MessageV>, l: Seq<MessageV>) -> CompatibilityLevel
    decreases l.len(),
{
    if l.len() == 0 {
        CompatibilityLevel::NoChange
    } else {
        meet(matched_messages_level(c, l.drop_last()), latest_message_level(c, l.last()))
    }
}

/// What the messages only the current schema carries contribute: an added
/// message is forward-compatible only.
pub open spec fn added_messages_level(c: Seq<MessageV>, l: Seq<MessageV>) -> CompatibilityLevel {
    if exists|j: int| 0 <= j < c.len() && !has_msg_id(l, (#[trigger] c[j]).id) {
        CompatibilityLevel::Forward
    } else {
        CompatibilityLevel::NoChange
    }
}

/// Whether the messages of a bag carry pairwise distinct ids.
pub open spec fn unique_message_ids(ms: Seq<MessageV>) -> bool {
    forall|i: int, j: int|
        0 <= i < ms.len() && 0 <= j < ms.len() && (#[trigger] ms[i]).id == (#[trigger] ms[j]).id
            ==> i == j
}

/// The messages of a schema; an absent messages section counts as empty.
pub open spec fn msg_seq(s: SchemaV) -> Seq<MessageV> {
    match s.messages {
        Some(ms) => ms,
        None => Seq::empty(),
    }
}

/// The verdict of comparing the messages of the two schemas. Messages are
/// matched by their stable id; matched pairs are compared field bag against
/// field bag and group bag against group bag; a removed message counts
/// backward-compatible and an added one forward-compatible.
pub open spec fn messages_verdict(l: SchemaV, c: SchemaV) -> CompatibilityLevel {
    meet(
        matched_messages_level(msg_seq(c), msg_seq(l)),
        added_messages_level(msg_seq(c), msg_seq(l)),
    )
}

/// The overall verdict of comparing two schemas: the version check and the
/// message header check can each fail, and the four sub-verdicts are folded
/// with the lattice meet.
pub open spec fn check_schemas_spec(l: SchemaV, c: SchemaV) -> Result<
    CompatibilityLevel,
    EvolutionError,
> {
    match version_verdict(l.version, c.version) {
        Err(e) => Err(e),
        Ok(version_level) => match header_verdict(l, c) {
            Err(e) => Err(e),
            Ok(header_level) => Ok(
                meet(
                    meet(meet(version_level, header_level), types_verdict(l, c)),
                    messages_verdict(l, c),
                ),
            ),
        },
    }
}

/// SBE allows several types sections in one schema file; this structure
/// flattens them into single bags to make them easier to compare.
pub struct FlatTypes {
    /// The flattened composites, the message header excluded.
    pub composites: Option<Vec<Composite>>,
    /// The flattened enums.
    pub enums: Option<Vec<EnumType>>,
    /// The flattened sets.
    pub sets: Option<Vec<SetType>>,
}

/// Flatten the types sections of a schema into single bags of composites
/// (the message header excluded), enums and sets.
pub fn flat_types(types: Option<&Vec<Types>>) -> (r: FlatTypes)
    ensures
        view_opt_seq(r.composites) == flat_composites_opt(view_opt_ref(types)),
        view_opt_seq(r.enums) == flat_enums_opt(view_opt_ref(types)),
        view_opt_seq(r.sets) == flat_sets_opt(view_opt_ref(types)),
{
    let blocks = match types {
        Some(blocks) => blocks,
        None => {
            return FlatTypes { composites: None, enums: None, sets: None };
        },
    };
    let ghost tsv = view_seq(blocks@);
    let mut composites: Vec<Composite> = Vec::new();
    let mut enums: Vec<EnumType> = Vec::new();
    let mut sets: Vec<SetType> = Vec::new();
    let mut i: usize = 0;
    proof {
        assert(tsv.take(0) =~= Seq::<TypesV>::empty());
        assert(tsv.take(0).map_values(|t: TypesV| block_composites(t)) =~= Seq::<
            Seq<CompositeV>,
        >::empty());
        assert(tsv.take(0).map_values(|t: TypesV| block_enums(t)) =~= Seq::<
            Seq<EnumTypeV>,
        >::empty());
        assert(tsv.take(0).map_values(|t: TypesV| block_sets(t)) =~= Seq::<
            Seq<SetTypeV>,
        >::empty());
        assert(view_seq(composites@) =~= flat_composites(tsv.take(0)));
        assert(view_seq(enums@) =~= flat_enums(tsv.take(0)));
        assert(view_seq(sets@) =~= flat_sets(tsv.take(0)));
    }
    while i < blocks.len()
        invariant
            i <= blocks.len(),
            tsv == view_seq(blocks@),
            tsv.len() == blocks@.len(),
            view_seq(composites@) == flat_composites(tsv.take(i as int)),
            view_seq(enums@) == flat_enums(tsv.take(i as int)),
            view_seq(sets@) == flat_sets(tsv.take(i as int)),
        decreases blocks.len() - i,
    {
        proof {
            assert(tsv[i as int] == blocks@[i as int]@);
        }
        let ghost pre_composites = view_seq(composites@);
        match &blocks[i].composites {
            Some(cs) => {
                proof {
                    assert(tsv[i as int].composites == Some(view_seq(cs@)));
                }
                push_composites_except_header(&mut composites, cs);
                proof {
                    assert(view_seq(composites@) == pre_composites + block_composites(
                        tsv[i as int],
                    ));
                }
            },
            None => {
                proof {
                    assert(view_seq(composites@) =~= pre_composites + block_composites(
                        tsv[i as int],
                    ));
                }
            },
        }
        let ghost pre_enums = view_seq(enums@);
        match &blocks[i].enums {
            Some(es) => {
                proof {
                    assert(tsv[i as int].enums == Some(view_seq(es@)));
                }
                push_all_enums(&mut enums, es);
                proof {
                    assert(view_seq(enums@) == pre_enums + block_enums(tsv[i as int]));
                }
            },
            None => {
                proof {
                    assert(view_seq(enums@) =~= pre_enums + block_enums(tsv[i as int]));
                }
            },
        }
        let ghost pre_sets = view_seq(sets@);
        match &blocks[i].sets {
            Some(ss) => {
                proof {
                    assert(tsv[i as int].sets == Some(view_seq(ss@)));
                }
                push_all_sets(&mut sets, ss);
                proof {
                    assert(view_seq(sets@) == pre_sets + block_sets(tsv[i as int]));
                }
            },
            None => {
                proof {
                    assert(view_seq(sets@) =~= pre_sets + block_sets(tsv[i as int]));
                }
            },
        }
        proof {
            lemma_flat_take_step(tsv, i as int);
        }
        i += 1;
    }
    proof {
        assert(tsv.take(i as int) =~= tsv);
    }
    FlatTypes { composites: Some(composites), enums: Some(enums), sets: Some(sets) }
}

/// Taking one more block extends each flattened bag by that block's items.
proof fn lemma_flat_take_step(ts: Seq<TypesV>, i: int)
    requires
        0 <= i < ts.len(),
    ensures
        flat_composites(ts.take(i + 1)) == flat_composites(ts.take(i)) + block_composites(ts[i]),
        flat_enums(ts.take(i + 1)) == flat_enums(ts.take(i)) + block_enums(ts[i]),
        flat_sets(ts.take(i + 1)) == flat_sets(ts.take(i)) + block_sets(ts[i]),
{
    let mc = |t: TypesV| block_composites(t);
    let me = |t: TypesV| block_enums(t);
    let ms = |t: TypesV| block_sets(t);
    assert(ts.take(i + 1).map_values(mc) =~= ts.take(i).map_values(mc).push(mc(ts[i])));
    assert(ts.take(i + 1).map_values(me) =~= ts.take(i).map_values(me).push(me(ts[i])));
    assert(ts.take(i + 1).map_values(ms) =~= ts.take(i).map_values(ms).push(ms(ts[i])));
    ts.take(i).map_values(mc).lemma_flatten_push(mc(ts[i]));
    ts.take(i).map_values(me).lemma_flatten_push(me(ts[i]));
    ts.take(i).map_values(ms).lemma_flatten_push(ms(ts[i]));
    assert(flat_composites(ts.take(i + 1)) =~= flat_composites(ts.take(i)) + block_composites(
        ts[i],
    ));
    assert(flat_enums(ts.take(i + 1)) =~= flat_enums(ts.take(i)) + block_enums(ts[i]));
    assert(flat_sets(ts.take(i + 1)) =~= flat_sets(ts.take(i)) + block_sets(ts[i]));
}

/// Append every composite of `cs` that is not the message header to `dst`.
fn push_composites_except_header(dst: &mut Vec<Composite>, cs: &Vec<Composite>)
    ensures
        view_seq(final(dst)@) == view_seq(old(dst)@) + view_seq(cs@).filter(
            |c: CompositeV| c.name != message_header_name(),
        ),
{
    let ghost pred = |c: CompositeV| c.name != message_header_name();
    let ghost csv = view_seq(cs@);
    proof {
        assert(csv.take(0) =~= Seq::<CompositeV>::empty());
        assert(Seq::<CompositeV>::empty().filter(pred) =~= Seq::<CompositeV>::empty());
        assert(view_seq(dst@) =~= view_seq(dst@) + csv.take(0).filter(pred));
    }
    let ghost base = view_seq(dst@);
    let mut j: usize = 0;
    while j < cs.len()
        invariant
            j <= cs.len(),
            pred == (|c: CompositeV| c.name != message_header_name()),
            csv == view_seq(cs@),
            csv.len() == cs@.len(),
            view_seq(dst@) == base + csv.take(j as int).filter(pred),
        decreases cs.len() - j,
    {
        proof {
            reveal_with_fuel(Seq::<CompositeV>::filter, 3);
            assert(csv[j as int] == cs@[j as int]@);
            assert(csv.take(j as int + 1) =~= csv.take(j as int) + seq![csv[j as int]]);
            Seq::<CompositeV>::filter_distributes_over_add(
                csv.take(j as int),
                seq![csv[j as int]],
                pred,
            );
            assert(seq![csv[j as int]].drop_last() =~= Seq::<CompositeV>::empty());
            assert(Seq::<CompositeV>::empty().filter(pred) =~= Seq::<CompositeV>::empty());
            if pred(csv[j as int]) {
                assert(seq![csv[j as int]].filter(pred) =~= seq![csv[j as int]]);
            } else {
                assert(seq![csv[j as int]].filter(pred) =~= Seq::<CompositeV>::empty());
            }
        }
        let ghost pre = view_seq(dst@);
        if !crate::types::is_message_header_name(&cs[j].name) {
            dst.push(cs[j].clone_view());
            proof {
                assert(pred(csv[j as int]));
                assert(csv.take(j as int + 1).filter(pred) == csv.take(j as int).filter(pred)
                    + seq![csv[j as int]]);
                assert(view_seq(dst@) =~= pre + seq![csv[j as int]]);
                assert(base + csv.take(j as int + 1).filter(pred) =~= (base + csv.take(
                    j as int,
                ).filter(pred)) + seq![csv[j as int]]);
                assert(view_seq(dst@) =~= base + csv.take(j as int + 1).filter(pred));
            }
        } else {
            proof {
                assert(!pred(csv[j as int]));
                assert(csv.take(j as int + 1).filter(pred) == csv.take(j as int).filter(pred)
                    + Seq::<CompositeV>::empty());
                assert(csv.take(j as int).filter(pred) + Seq::<CompositeV>::empty() =~= csv.take(
                    j as int,
                ).filter(pred));
                assert(view_seq(dst@) =~= base + csv.take(j as int + 1).filter(pred));
            }
        }
        j += 1;
    }
    proof {
        assert(csv.take(j as int) =~= csv);
    }
}

/// Append every enum of `es` to `dst`.
fn push_all_enums(dst: &mut Vec<EnumType>, es: &Vec<EnumType>)
    ensures
        view_seq(final(dst)@) == view_seq(old(dst)@) + view_seq(es@),
{
    let ghost base = view_seq(dst@);
    let ghost esv = view_seq(es@);
    let mut k: usize = 0;
    proof {
        assert(esv.take(0) =~= Seq::<EnumTypeV>::empty());
        assert(view_seq(dst@) =~= base + esv.take(0));
    }
    while k < es.len()
        invariant
            k <= es.len(),
            esv == view_seq(es@),
            esv.len() == es@.len(),
            view_seq(dst@) == base + esv.take(k as int),
        decreases es.len() - k,
    {
        proof {
            assert(esv[k as int] == es@[k as int]@);
        }
        let ghost pre = view_seq(dst@);
        dst.push(es[k].clone_view());
        proof {
            assert(view_seq(dst@) =~= pre + seq![esv[k as int]]);
            assert(esv.take(k as int + 1) =~= esv.take(k as int) + seq![esv[k as int]]);
            assert(view_seq(dst@) =~= base + esv.take(k as int + 1));
        }
        k += 1;
    }
    proof {
        assert(esv.take(k as int) =~= esv);
    }
}

/// Append every set of `ss` to `dst`.
fn push_all_sets(dst: &mut Vec<SetType>, ss: &Vec<SetType>)
    ensures
        view_seq(final(dst)@) == view_seq(old(dst)@) + view_seq(ss@),
{
    let ghost base = view_seq(dst@);
    let ghost ssv = view_seq(ss@);
    let mut k: usize = 0;
    proof {
        assert(ssv.take(0) =~= Seq::<SetTypeV>::empty());
        assert(view_seq(dst@) =~= base + ssv.take(0));
    }
    while k < ss.len()
        invariant
            k <= ss.len(),
            ssv == view_seq(ss@),
            ssv.len() == ss@.len(),
            view_seq(dst@) == base + ssv.take(k as int),
        decreases ss.len() - k,
    {
        proof {
            assert(ssv[k as int] == ss@[k as int]@);
        }
        let ghost pre = view_seq(dst@);
        dst.push(ss[k].clone_view());
        proof {
            assert(view_seq(dst@) =~= pre + seq![ssv[k as int]]);
            assert(ssv.take(k as int + 1) =~= ssv.take(k as int) + seq![ssv[k as int]]);
            assert(view_seq(dst@) =~= base + ssv.take(k as int + 1));
        }
        k += 1;
    }
    proof {
        assert(ssv.take(k as int) =~= ssv);
    }
}

/// The first message of `ms` carrying the given id, if any.
fn find_message(ms: &Vec<Message>, id: u32) -> (r: Option<&Message>)
    ensures
        match r {
            Some(m) => msg_by_id(view_seq(ms@), id) == Some(m@),
            None => msg_by_id(view_seq(ms@), id) is None,
        },
{
    let ghost msv = view_seq(ms@);
    proof {
        assert(msv.skip(0) =~= msv);
    }
    let mut i: usize = 0;
    while i < ms.len()
        invariant
            i <= ms.len(),
            msv == view_seq(ms@),
            msv.len() == ms@.len(),
            msg_by_id(msv, id) == msg_by_id(msv.skip(i as int), id),
        decreases ms.len() - i,
    {
        proof {
            assert(msv[i as int] == ms@[i as int]@);
            assert(msv.skip(i as int)[0] == msv[i as int]);
            assert(msv.skip(i as int).drop_first() =~= msv.skip(i as int + 1));
        }
        if ms[i].id == id {
            return Some(&ms[i]);
        }
        i += 1;
    }
    proof {
        assert(msv.skip(i as int).len() == 0);
    }
    None
}

/// Compute the verdict of two messages matched by id.
fn compare_message_pair(current: &Message, latest: &Message) -> (r: CompatibilityLevel)
    ensures
        r == message_pair_verdict(current@, latest@),
{
    let current_fields = current.fields.as_ref();
    let latest_fields = latest.fields.as_ref();
    let current_groups = current.groups.as_ref();
    let latest_groups = latest.groups.as_ref();
    let fields_level = check_vec::<Field>(current_fields, latest_fields);
    let groups_level = check_vec::<Group>(current_groups, latest_groups);
    proof {
        assert(view_opt_ref(current_fields) == view_opt_seq(current.fields));
        assert(view_opt_ref(latest_fields) == view_opt_seq(latest.fields));
        assert(view_opt_ref(current_groups) == view_opt_seq(current.groups));
        assert(view_opt_ref(latest_groups) == view_opt_seq(latest.groups));
    }
    get_compatibility_from_current_and_new_level(fields_level, groups_level)
}

/// A validator for SBE schema versions: it borrows the two schemas and
/// compares them piece by piece.
pub struct SbeSchemaValidator<'a> {
    latest_schema: &'a Schema,
    current_schema: &'a Schema,
}

impl<'a> SbeSchemaValidator<'a> {
    /// Create a new `SbeSchemaValidator` with the given schemas.
    pub fn new(latest_schema: &'a Schema, current_schema: &'a Schema) -> (r: Self)
        ensures
            r.latest_v() == latest_schema@,
            r.current_v() == current_schema@,
    {
        Self { latest_schema, current_schema }
    }
}

impl<'a> SchemaValidator for SbeSchemaValidator<'a> {
    type SchemaType = Schema;

    closed spec fn latest_v(&self) -> SchemaV {
        self.latest_schema@
    }

    closed spec fn current_v(&self) -> SchemaV {
        self.current_schema@
    }

    fn latest(&self) -> (r: &Schema)
        ensures
            r@ == self.latest_v(),
    {
        self.latest_schema
    }

    fn current(&self) -> (r: &Schema)
        ensures
            r@ == self.current_v(),
    {
        self.current_schema
    }

    fn compare_version(&self) -> (r: Result<CompatibilityLevel, EvolutionError>) {
        match (self.latest_schema.version, self.current_schema.version) {
            (Some(l), Some(c)) => {
                if c == l {
                    Ok(CompatibilityLevel::NoChange)
                } else if c > l && c - l == 1 {
                    Ok(CompatibilityLevel::Full)
                } else {
                    Ok(CompatibilityLevel::Incompatible)
                }
            },
            _ => Err(EvolutionError::MissingVersion),
        }
    }

    fn compare_message_header(&self) -> (r: Result<CompatibilityLevel, EvolutionError>) {
        let latest = self.latest_schema.message_header();
        let current = self.current_schema.message_header();
        match (latest, current) {
            (Some(latest), Some(current)) => Ok(current.partial_compatibility(latest)),
            // SBE requires the message header to be declared.
            _ => Err(EvolutionError::MissingMessageHeader),
        }
    }

    fn compare_types(&self) -> (r: Result<CompatibilityLevel, EvolutionError>) {
        let latest_blocks = self.latest_schema.types.as_ref();
        let current_blocks = self.current_schema.types.as_ref();
        let latest_flat_types = flat_types(latest_blocks);
        let current_flat_types = flat_types(current_blocks);
        proof {
            assert(view_opt_ref(latest_blocks) == view_opt_seq(self.latest_schema.types));
            assert(view_opt_ref(current_blocks) == view_opt_seq(self.current_schema.types));
        }
        let current_composites = current_flat_types.composites.as_ref();
        let latest_composites = latest_flat_types.composites.as_ref();
        let current_enums = current_flat_types.enums.as_ref();
        let latest_enums = latest_flat_types.enums.as_ref();
        let current_sets = current_flat_types.sets.as_ref();
        let latest_sets = latest_flat_types.sets.as_ref();
        let composites = check_vec::<Composite>(current_composites, latest_composites);
        let enums = check_vec::<EnumType>(current_enums, latest_enums);
        let sets = check_vec::<SetType>(current_sets, latest_sets);
        proof {
            assert(view_opt_ref(current_composites) == view_opt_seq(current_flat_types.composites));
            assert(view_opt_ref(latest_composites) == view_opt_seq(latest_flat_types.composites));
            assert(view_opt_ref(current_enums) == view_opt_seq(current_flat_types.enums));
            assert(view_opt_ref(latest_enums) == view_opt_seq(latest_flat_types.enums));
            assert(view_opt_ref(current_sets) == view_opt_seq(current_flat_types.sets));
            assert(view_opt_ref(latest_sets) == view_opt_seq(latest_flat_types.sets));
        }
        Ok(
            get_compatibility_from_current_and_new_level(
                get_compatibility_from_current_and_new_level(composites, enums),
                sets,
            ),
        )
    }

    fn compare_messages(&self) -> (r: Result<CompatibilityLevel, EvolutionError>) {
        let empty_latest: Vec<Message> = Vec::new();
        let empty_current: Vec<Message> = Vec::new();
        let lms = match &self.latest_schema.messages {
            Some(ms) => ms,
            None => &empty_latest,
        };
        let cms = match &self.current_schema.messages {
            Some(ms) => ms,
            None => &empty_current,
        };
        let ghost lv = view_seq(lms@);
        let ghost cv = view_seq(cms@);
        proof {
            assert(empty_latest@ =~= Seq::<Message>::empty());
            assert(empty_current@ =~= Seq::<Message>::empty());
            assert(view_seq(empty_latest@) =~= Seq::<MessageV>::empty());
            assert(view_seq(empty_current@) =~= Seq::<MessageV>::empty());
            assert(lv == msg_seq(self.latest_v()));
            assert(cv == msg_seq(self.current_v()));
            assert(lv.take(0) =~= Seq::<MessageV>::empty());
        }
        let mut level = CompatibilityLevel::NoChange;
        let mut i: usize = 0;
        while i < lms.len()
            invariant
                i <= lms.len(),
                lv == view_seq(lms@),
                cv == view_seq(cms@),
                lv.len() == lms@.len(),
                level == matched_messages_level(cv, lv.take(i as int)),
            decreases lms.len() - i,
        {
            proof {
                assert(lv[i as int] == lms@[i as int]@);
            }
            let contribution = match find_message(cms, lms[i].id) {
                Some(cm) => compare_message_pair(cm, &lms[i]),
                None => CompatibilityLevel::Backward,
            };
            level = get_compatibility_from_current_and_new_level(level, contribution);
            proof {
                assert(lv.take(i as int + 1).drop_last() =~= lv.take(i as int));
                assert(lv.take(i as int + 1).last() == lv[i as int]);
            }
            i += 1;
        }
        proof {
            assert(lv.take(i as int) =~= lv);
        }
        let mut any_added = false;
        let mut j: usize = 0;
        while j < cms.len()
            invariant
                j <= cms.len(),
                lv == view_seq(lms@),
                cv == view_seq(cms@),
                cv.len() == cms@.len(),
                any_added == exists|k: int| 0 <= k < j && !has_msg_id(lv, (#[trigger] cv[k]).id),
            decreases cms.len() - j,
        {
            proof {
                assert(cv[j as int] == cms@[j as int]@);
                lemma_msg_by_id_some(lv, cv[j as int].id);
            }
            match find_message(lms, cms[j].id) {
                Some(_) => {},
                None => {
                    any_added = true;
                },
            }
            j += 1;
        }
        let added = if any_added {
            CompatibilityLevel::Forward
        } else {
            CompatibilityLevel::NoChange
        };
        Ok(get_compatibility_from_current_and_new_level(level, added))
    }
}

/// Compare two schemas and produce the single overall verdict, combining the
/// version check, the message header check, the type definitions check and
/// the messages check through the lattice meet.
pub fn check_schemas(latest: &Schema, current: &Schema) -> (r: Result<
    CompatibilityLevel,
    EvolutionError,
>)
    ensures
        r == check_schemas_spec(latest@, current@),
{
    let validator = SbeSchemaValidator::new(latest, current);
    let version_level = match validator.compare_version() {
        Ok(level) => level,
        Err(e) => {
            return Err(e);
        },
    };
    let header_level = match validator.compare_message_header() {
        Ok(level) => level,
        Err(e) => {
            return Err(e);
        },
    };
    let types_level = match validator.compare_types() {
        Ok(level) => level,
        Err(e) => {
            return Err(e);
        },
    };
    let messages_level = match validator.compare_messages() {
        Ok(level) => level,
        Err(e) => {
            return Err(e);
        },
    };
    Ok(
        get_compatibility_from_current_and_new_level(
            get_compatibility_from_current_and_new_level(
                get_compatibility_from_current_and_new_level(version_level, header_level),
                types_level,
            ),
            messages_level,
        ),
    )
}

/// Whether a verdict meets a strategy's minimum level: folding the verdict
/// into the minimum must not weaken it.
pub open spec fn meets_threshold(verdict: CompatibilityLevel, minimum: CompatibilityLevel) -> bool {
    meet(verdict, minimum) == minimum
}

/// What a strategy with the given minimum level decides on two schemas: the
/// comparator's verdict when it meets the threshold, and
/// `SchemaNotCompatible` carrying the verdict when it does not.
pub open spec fn strategy_outcome(minimum: CompatibilityLevel, l: SchemaV, c: SchemaV) -> Result<
    CompatibilityLevel,
    EvolutionError,
> {
    match check_schemas_spec(l, c) {
        Err(e) => Err(e),
        Ok(verdict) => if meets_threshold(verdict, minimum) {
            Ok(verdict)
        } else {
            Err(EvolutionError::SchemaNotCompatible(verdict))
        },
    }
}

/// Check whether a verdict meets a strategy's minimum level.
pub fn verdict_meets_threshold(verdict: CompatibilityLevel, minimum: CompatibilityLevel) -> (r:
    bool)
    ensures
        r == meets_threshold(verdict, minimum),
{
    let folded = get_compatibility_from_current_and_new_level(verdict, minimum);
    folded == minimum
}

} // verus!
