//! Laws of the comparator: what holds of the overall verdict for all
//! schemas, proved once and for all from the comparator's definitions.

use vstd::prelude::*;

use crate::compatibility::CompatibilityLevel;
use crate::evolution::partial_compatibility_for_types::{
    bag_verdict, has_added_item, has_deleted_item,
};
use crate::evolution::validator::{
    check_schemas_spec, latest_message_level, matched_messages_level, message_pair_verdict,
    messages_verdict, msg_by_id, msg_seq, types_verdict, unique_message_ids,
};
use crate::evolution::{EvolutionError, Optional};
use crate::types::{message_header_v, Message, MessageV, SchemaV};

verus! {

/// Comparing a bag of declarations against itself finds no change.
pub proof fn lemma_bag_verdict_self<T: Optional>(bag: Option<Seq<T::V>>)
    ensures
        bag_verdict::<T>(bag, bag) == CompatibilityLevel::NoChange,
{
    match bag {
        None => {},
        Some(c) => {
            assert forall|i: int| 0 <= i < c.len() implies c.contains(#[trigger] c[i]) by {
                assert(c[i] == c[i]);
            }
            assert(!has_deleted_item::<T>(c, c, false));
            assert(!has_deleted_item::<T>(c, c, true));
            assert(!has_added_item::<T>(c, c, false));
            assert(!has_added_item::<T>(c, c, true));
        },
    }
}

/// When message ids are distinct, searching for the id of the message at
/// position `k` finds exactly that message.
pub proof fn lemma_msg_by_id_unique(ms: Seq<MessageV>, k: int)
    requires
        unique_message_ids(ms),
        0 <= k < ms.len(),
    ensures
        msg_by_id(ms, ms[k].id) == Some(ms[k]),
    decreases ms.len(),
{
    if ms[0].id == ms[k].id {
        assert(k == 0);
    } else {
        assert(k >= 1);
        let tail = ms.drop_first();
        assert forall|i: int, j: int|
            0 <= i < tail.len() && 0 <= j < tail.len() && (#[trigger] tail[i]).id == (
            #[trigger] tail[j]).id implies i == j by {
            assert(ms[i + 1].id == ms[j + 1].id);
        }
        lemma_msg_by_id_unique(tail, k - 1);
        assert(tail[k - 1] == ms[k]);
    }
}

/// When message ids are distinct, every message of `ms` contributes
/// `NoChange` when `ms` is compared against itself.
proof fn lemma_matched_self_fold(ms: Seq<MessageV>, l: Seq<MessageV>)
    requires
        forall|i: int|
            0 <= i < l.len() ==> latest_message_level(ms, #[trigger] l[i])
                == CompatibilityLevel::NoChange,
    ensures
        matched_messages_level(ms, l) == CompatibilityLevel::NoChange,
    decreases l.len(),
{
    if l.len() > 0 {
        assert forall|i: int|
            0 <= i < l.drop_last().len() implies latest_message_level(
            ms,
            #[trigger] l.drop_last()[i],
        ) == CompatibilityLevel::NoChange by {
            assert(l.drop_last()[i] == l[i]);
        }
        lemma_matched_self_fold(ms, l.drop_last());
        assert(latest_message_level(ms, l.last()) == CompatibilityLevel::NoChange);
    }
}

/// Comparing a message bag with distinct ids against itself finds no change.
pub proof fn lemma_messages_self(ms: Seq<MessageV>)
    requires
        unique_message_ids(ms),
    ensures
        matched_messages_level(ms, ms) == CompatibilityLevel::NoChange,
{
    assert forall|i: int|
        0 <= i < ms.len() implies latest_message_level(ms, #[trigger] ms[i])
        == CompatibilityLevel::NoChange by {
        lemma_msg_by_id_unique(ms, i);
        lemma_bag_verdict_self::<crate::types::Field>(ms[i].fields);
        lemma_bag_verdict_self::<crate::types::Group>(ms[i].groups);
        assert(message_pair_verdict(ms[i], ms[i]) == CompatibilityLevel::NoChange);
    }
    lemma_matched_self_fold(ms, ms);
}

/// Comparing a schema that has a version, a message header, and distinct
/// message ids against itself yields `NoChange`.
pub proof fn lemma_check_self(s: SchemaV)
    requires
        s.version is Some,
        message_header_v(s) is Some,
        unique_message_ids(msg_seq(s)),
    ensures
        check_schemas_spec(s, s) == Ok::<CompatibilityLevel, EvolutionError>(
            CompatibilityLevel::NoChange,
        ),
{
    lemma_bag_verdict_self::<Composite>(
        crate::evolution::validator::flat_composites_opt(s.types),
    );
    lemma_bag_verdict_self::<EnumType>(
        crate::evolution::validator::flat_enums_opt(s.types),
    );
    lemma_bag_verdict_self::<SetType>(
        crate::evolution::validator::flat_sets_opt(s.types),
    );
    lemma_messages_self(msg_seq(s));
    let ms = msg_seq(s);
    assert forall|j: int| 0 <= j < ms.len() implies crate::evolution::validator::has_msg_id(
        ms,
        (#[trigger] ms[j]).id,
    ) by {
        assert(ms[j].id == ms[j].id);
    }
    assert(messages_verdict(s, s) == CompatibilityLevel::NoChange);
}

/// The check is deterministic: two results of comparing the same two
/// schemas are the same verdict.
pub proof fn lemma_check_deterministic(
    l: SchemaV,
    c: SchemaV,
    r1: Result<CompatibilityLevel, EvolutionError>,
    r2: Result<CompatibilityLevel, EvolutionError>,
)
    requires
        r1 == check_schemas_spec(l, c),
        r2 == check_schemas_spec(l, c),
    ensures
        r1 == r2,
{
}

/// Renaming a message does not change what the comparator reads: two
/// messages that differ only in name and description have the same
/// wire-relevant content.
pub proof fn lemma_message_name_ignored(m1: Message, m2: Message)
    requires
        m1.id == m2.id,
        m1.fields == m2.fields,
        m1.groups == m2.groups,
        m1.semantic_type == m2.semantic_type,
    ensures
        m1@ == m2@,
{
    assert(m1@ =~= m2@);
}

/// A version bump with no other change yields `Full` when the bump is
/// exactly one, and `Incompatible` for any other change of the version.
pub proof fn lemma_version_bump_only(l: SchemaV, c: SchemaV)
    requires
        c.package == l.package,
        c.id == l.id,
        c.semantic_version == l.semantic_version,
        c.byte_order == l.byte_order,
        c.types == l.types,
        c.messages == l.messages,
        l.version is Some,
        c.version is Some,
        message_header_v(l) is Some,
        unique_message_ids(msg_seq(l)),
    ensures
        c.version.unwrap() == l.version.unwrap() + 1 ==> check_schemas_spec(l, c)
            == Ok::<CompatibilityLevel, EvolutionError>(CompatibilityLevel::Full),
        c.version.unwrap() != l.version.unwrap() && c.version.unwrap() != l.version.unwrap() + 1
            ==> check_schemas_spec(l, c) == Ok::<CompatibilityLevel, EvolutionError>(
            CompatibilityLevel::Incompatible,
        ),
{
    lemma_bag_verdict_self::<Composite>(
        crate::evolution::validator::flat_composites_opt(l.types),
    );
    lemma_bag_verdict_self::<EnumType>(
        crate::evolution::validator::flat_enums_opt(l.types),
    );
    lemma_bag_verdict_self::<SetType>(
        crate::evolution::validator::flat_sets_opt(l.types),
    );
    assert(types_verdict(l, c) == CompatibilityLevel::NoChange);
    lemma_messages_self(msg_seq(l));
    let ms = msg_seq(l);
    assert(msg_seq(c) == ms);
    assert forall|j: int| 0 <= j < ms.len() implies crate::evolution::validator::has_msg_id(
        ms,
        (#[trigger] ms[j]).id,
    ) by {
        assert(ms[j].id == ms[j].id);
    }
    assert(messages_verdict(l, c) == CompatibilityLevel::NoChange);
    assert(message_header_v(c) == message_header_v(l));
}

} // verus!

verus! {

use crate::compatibility::meet;
use crate::evolution::partial_compatibility_for_types::{all_optional, composite_verdict};
use crate::evolution::validator::{added_messages_level, has_msg_id};
use crate::types::CompositeV;

/// Two optional bags hold the same items, in some order.
pub open spec fn opt_seq_equiv<V>(a: Option<Seq<V>>, b: Option<Seq<V>>) -> bool {
    match (a, b) {
        (None, None) => true,
        (Some(x), Some(y)) => x.to_multiset() == y.to_multiset(),
        _ => false,
    }
}

/// Two sequences with the same multiset hold the same items.
proof fn lemma_contains_multiset<V>(s1: Seq<V>, s2: Seq<V>, x: V)
    requires
        s1.to_multiset() == s2.to_multiset(),
    ensures
        s1.contains(x) == s2.contains(x),
{
    broadcast use vstd::seq_lib::group_to_multiset_ensures;

    assert(s1.contains(x) <==> s1.to_multiset().count(x) > 0);
    assert(s2.contains(x) <==> s2.to_multiset().count(x) > 0);
}

/// Whether every item is optional does not depend on the order of the items.
proof fn lemma_all_optional_multiset<T: Optional>(s1: Seq<T::V>, s2: Seq<T::V>)
    requires
        s1.to_multiset() == s2.to_multiset(),
    ensures
        all_optional::<T>(s1) == all_optional::<T>(s2),
{
    broadcast use vstd::seq_lib::group_to_multiset_ensures;

    if all_optional::<T>(s1) {
        assert forall|i: int| 0 <= i < s2.len() implies T::spec_is_optional(#[trigger] s2[i]) by {
            assert(s2.contains(s2[i]));
            lemma_contains_multiset(s1, s2, s2[i]);
            let k = choose|k: int| 0 <= k < s1.len() && s1[k] == s2[i];
            assert(T::spec_is_optional(s1[k]));
        }
    }
    if all_optional::<T>(s2) {
        assert forall|i: int| 0 <= i < s1.len() implies T::spec_is_optional(#[trigger] s1[i]) by {
            assert(s1.contains(s1[i]));
            lemma_contains_multiset(s1, s2, s1[i]);
            let k = choose|k: int| 0 <= k < s2.len() && s2[k] == s1[i];
            assert(T::spec_is_optional(s2[k]));
        }
    }
}

/// Whether a deleted item of the given optionality exists does not depend
/// on the order of either bag.
proof fn lemma_has_deleted_multiset<T: Optional>(
    c1: Seq<T::V>,
    l1: Seq<T::V>,
    c2: Seq<T::V>,
    l2: Seq<T::V>,
    optional: bool,
)
    requires
        c1.to_multiset() == c2.to_multiset(),
        l1.to_multiset() == l2.to_multiset(),
    ensures
        has_deleted_item::<T>(c1, l1, optional) == has_deleted_item::<T>(c2, l2, optional),
{
    broadcast use vstd::seq_lib::group_to_multiset_ensures;

    if has_deleted_item::<T>(c1, l1, optional) {
        let i = choose|i: int|
            0 <= i < l1.len() && !c1.contains(#[trigger] l1[i]) && T::spec_is_optional(l1[i])
                == optional;
        assert(l1.contains(l1[i]));
        lemma_contains_multiset(l1, l2, l1[i]);
        let j = choose|j: int| 0 <= j < l2.len() && l2[j] == l1[i];
        lemma_contains_multiset(c1, c2, l2[j]);
        assert(!c2.contains(l2[j]));
        assert(has_deleted_item::<T>(c2, l2, optional));
    }
    if has_deleted_item::<T>(c2, l2, optional) {
        let i = choose|i: int|
            0 <= i < l2.len() && !c2.contains(#[trigger] l2[i]) && T::spec_is_optional(l2[i])
                == optional;
        assert(l2.contains(l2[i]));
        lemma_contains_multiset(l1, l2, l2[i]);
        let j = choose|j: int| 0 <= j < l1.len() && l1[j] == l2[i];
        lemma_contains_multiset(c1, c2, l1[j]);
        assert(!c1.contains(l1[j]));
        assert(has_deleted_item::<T>(c1, l1, optional));
    }
}

/// Whether an added item of the given optionality exists does not depend
/// on the order of either bag.
proof fn lemma_has_added_multiset<T: Optional>(
    c1: Seq<T::V>,
    l1: Seq<T::V>,
    c2: Seq<T::V>,
    l2: Seq<T::V>,
    optional: bool,
)
    requires
        c1.to_multiset() == c2.to_multiset(),
        l1.to_multiset() == l2.to_multiset(),
    ensures
        has_added_item::<T>(c1, l1, optional) == has_added_item::<T>(c2, l2, optional),
{
    broadcast use vstd::seq_lib::group_to_multiset_ensures;

    if has_added_item::<T>(c1, l1, optional) {
        let i = choose|i: int|
            0 <= i < c1.len() && !l1.contains(#[trigger] c1[i]) && T::spec_is_optional(c1[i])
                == optional;
        assert(c1.contains(c1[i]));
        lemma_contains_multiset(c1, c2, c1[i]);
        let j = choose|j: int| 0 <= j < c2.len() && c2[j] == c1[i];
        lemma_contains_multiset(l1, l2, c2[j]);
        assert(!l2.contains(c2[j]));
        assert(has_added_item::<T>(c2, l2, optional));
    }
    if has_added_item::<T>(c2, l2, optional) {
        let i = choose|i: int|
            0 <= i < c2.len() && !l2.contains(#[trigger] c2[i]) && T::spec_is_optional(c2[i])
                == optional;
        assert(c2.contains(c2[i]));
        lemma_contains_multiset(c1, c2, c2[i]);
        let j = choose|j: int| 0 <= j < c1.len() && c1[j] == c2[i];
        lemma_contains_multiset(l1, l2, c1[j]);
        assert(!l1.contains(c1[j]));
        assert(has_added_item::<T>(c1, l1, optional));
    }
}

/// Reordering the sibling declarations of either bag does not change the
/// bag comparator's verdict.
pub proof fn lemma_bag_verdict_reorder<T: Optional>(
    current1: Option<Seq<T::V>>,
    latest1: Option<Seq<T::V>>,
    current2: Option<Seq<T::V>>,
    latest2: Option<Seq<T::V>>,
)
    requires
        opt_seq_equiv(current1, current2),
        opt_seq_equiv(latest1, latest2),
    ensures
        bag_verdict::<T>(current1, latest1) == bag_verdict::<T>(current2, latest2),
{
    match (current1, latest1, current2, latest2) {
        (None, None, None, None) => {},
        (Some(c1), None, Some(c2), None) => {
            lemma_all_optional_multiset::<T>(c1, c2);
        },
        (None, Some(l1), None, Some(l2)) => {
            lemma_all_optional_multiset::<T>(l1, l2);
        },
        (Some(c1), Some(l1), Some(c2), Some(l2)) => {
            lemma_has_deleted_multiset::<T>(c1, l1, c2, l2, false);
            lemma_has_deleted_multiset::<T>(c1, l1, c2, l2, true);
            lemma_has_added_multiset::<T>(c1, l1, c2, l2, false);
            lemma_has_added_multiset::<T>(c1, l1, c2, l2, true);
        },
        _ => {
            assert(false);
        },
    }
}

/// Reordering the types or refs of either composite does not change the
/// composite verdict.
pub proof fn lemma_composite_verdict_reorder(
    current1: CompositeV,
    latest1: CompositeV,
    current2: CompositeV,
    latest2: CompositeV,
)
    requires
        current2.name == current1.name,
        latest2.name == latest1.name,
        opt_seq_equiv(current1.types, current2.types),
        opt_seq_equiv(current1.refs, current2.refs),
        opt_seq_equiv(latest1.types, latest2.types),
        opt_seq_equiv(latest1.refs, latest2.refs),
    ensures
        composite_verdict(current1, latest1) == composite_verdict(current2, latest2),
{
    broadcast use vstd::seq_lib::group_to_multiset_ensures;

    if current1.name != latest1.name {
    } else {
        lemma_bag_verdict_reorder::<crate::types::Type>(
            current1.types,
            latest1.types,
            current2.types,
            latest2.types,
        );
        lemma_bag_verdict_reorder::<crate::types::Ref>(
            current1.refs,
            latest1.refs,
            current2.refs,
            latest2.refs,
        );
        if current1.types == latest1.types && current1.refs == latest1.refs {
            lemma_bag_verdict_self::<crate::types::Type>(current1.types);
            lemma_bag_verdict_self::<crate::types::Ref>(current1.refs);
        }
        if current2.types == latest2.types && current2.refs == latest2.refs {
            lemma_bag_verdict_self::<crate::types::Type>(current2.types);
            lemma_bag_verdict_self::<crate::types::Ref>(current2.refs);
        }
    }
}

} // verus!

verus! {

/// Whether some latest message contributes the given verdict.
spec fn contributes(c: Seq<MessageV>, l: Seq<MessageV>, level: CompatibilityLevel) -> bool {
    exists|i: int| 0 <= i < l.len() && latest_message_level(c, #[trigger] l[i]) == level
}

/// The meet of all latest-message contributions, characterised by which
/// verdicts occur rather than by the order of the fold.
spec fn matched_characterization(c: Seq<MessageV>, l: Seq<MessageV>) -> CompatibilityLevel {
    if contributes(c, l, CompatibilityLevel::Incompatible) || (contributes(
        c,
        l,
        CompatibilityLevel::Backward,
    ) && contributes(c, l, CompatibilityLevel::Forward)) {
        CompatibilityLevel::Incompatible
    } else if contributes(c, l, CompatibilityLevel::Backward) {
        CompatibilityLevel::Backward
    } else if contributes(c, l, CompatibilityLevel::Forward) {
        CompatibilityLevel::Forward
    } else if contributes(c, l, CompatibilityLevel::Full) {
        CompatibilityLevel::Full
    } else {
        CompatibilityLevel::NoChange
    }
}

/// Dropping the last latest message splits its contribution off.
proof fn lemma_contributes_snoc(c: Seq<MessageV>, l: Seq<MessageV>, level: CompatibilityLevel)
    requires
        l.len() > 0,
    ensures
        contributes(c, l, level) == (contributes(c, l.drop_last(), level) || latest_message_level(
            c,
            l.last(),
        ) == level),
{
    if contributes(c, l.drop_last(), level) {
        let i = choose|i: int|
            0 <= i < l.drop_last().len() && latest_message_level(c, #[trigger] l.drop_last()[i])
                == level;
        assert(l[i] == l.drop_last()[i]);
        assert(contributes(c, l, level));
    }
    if latest_message_level(c, l.last()) == level {
        assert(l[l.len() - 1] == l.last());
        assert(contributes(c, l, level));
    }
    if contributes(c, l, level) && latest_message_level(c, l.last()) != level {
        let i = choose|i: int|
            0 <= i < l.len() && latest_message_level(c, #[trigger] l[i]) == level;
        assert(i < l.len() - 1);
        assert(l.drop_last()[i] == l[i]);
        assert(contributes(c, l.drop_last(), level));
    }
}

/// The meet fold over the latest messages equals its order-free
/// characterisation.
proof fn lemma_matched_characterization(c: Seq<MessageV>, l: Seq<MessageV>)
    ensures
        matched_messages_level(c, l) == matched_characterization(c, l),
    decreases l.len(),
{
    if l.len() == 0 {
    } else {
        lemma_matched_characterization(c, l.drop_last());
        lemma_contributes_snoc(c, l, CompatibilityLevel::Incompatible);
        lemma_contributes_snoc(c, l, CompatibilityLevel::Backward);
        lemma_contributes_snoc(c, l, CompatibilityLevel::Forward);
        lemma_contributes_snoc(c, l, CompatibilityLevel::Full);
        lemma_contributes_snoc(c, l, CompatibilityLevel::NoChange);
    }
}

/// When the current messages carry distinct ids, searching them by id does
/// not depend on their order.
proof fn lemma_msg_by_id_multiset(c1: Seq<MessageV>, c2: Seq<MessageV>, id: u32)
    requires
        c1.to_multiset() == c2.to_multiset(),
        unique_message_ids(c1),
        unique_message_ids(c2),
    ensures
        msg_by_id(c1, id) == msg_by_id(c2, id),
{
    crate::evolution::validator::lemma_msg_by_id_some(c1, id);
    crate::evolution::validator::lemma_msg_by_id_some(c2, id);
    if has_msg_id(c1, id) {
        let k = choose|k: int| 0 <= k < c1.len() && (#[trigger] c1[k]).id == id;
        lemma_msg_by_id_unique(c1, k);
        assert(c1.contains(c1[k]));
        lemma_contains_multiset(c1, c2, c1[k]);
        let k2 = choose|k2: int| 0 <= k2 < c2.len() && c2[k2] == c1[k];
        lemma_msg_by_id_unique(c2, k2);
    } else {
        if has_msg_id(c2, id) {
            let k2 = choose|k2: int| 0 <= k2 < c2.len() && (#[trigger] c2[k2]).id == id;
            assert(c2.contains(c2[k2]));
            lemma_contains_multiset(c1, c2, c2[k2]);
            let k = choose|k: int| 0 <= k < c1.len() && c1[k] == c2[k2];
            assert(has_msg_id(c1, id));
        }
    }
}

/// Reordering the messages of either schema does not change the messages
/// verdict, as long as message ids are distinct.
pub proof fn lemma_messages_level_reorder(
    c1: Seq<MessageV>,
    l1: Seq<MessageV>,
    c2: Seq<MessageV>,
    l2: Seq<MessageV>,
)
    requires
        c1.to_multiset() == c2.to_multiset(),
        l1.to_multiset() == l2.to_multiset(),
        unique_message_ids(c1),
        unique_message_ids(c2),
    ensures
        meet(matched_messages_level(c1, l1), added_messages_level(c1, l1)) == meet(
            matched_messages_level(c2, l2),
            added_messages_level(c2, l2),
        ),
{
    assert forall|m: MessageV| true implies latest_message_level(c1, m) == latest_message_level(
        c2,
        m,
    ) by {
        lemma_msg_by_id_multiset(c1, c2, m.id);
    }
    lemma_matched_characterization(c1, l1);
    lemma_matched_characterization(c2, l2);
    assert forall|level: CompatibilityLevel| true implies contributes(c1, l1, level)
        == contributes(c2, l2, level) by {
        if contributes(c1, l1, level) {
            let i = choose|i: int|
                0 <= i < l1.len() && latest_message_level(c1, #[trigger] l1[i]) == level;
            assert(l1.contains(l1[i]));
            lemma_contains_multiset(l1, l2, l1[i]);
            let j = choose|j: int| 0 <= j < l2.len() && l2[j] == l1[i];
            assert(latest_message_level(c2, l2[j]) == level);
            assert(contributes(c2, l2, level));
        }
        if contributes(c2, l2, level) {
            let i = choose|i: int|
                0 <= i < l2.len() && latest_message_level(c2, #[trigger] l2[i]) == level;
            assert(l2.contains(l2[i]));
            lemma_contains_multiset(l1, l2, l2[i]);
            let j = choose|j: int| 0 <= j < l1.len() && l1[j] == l2[i];
            assert(latest_message_level(c1, l1[j]) == level);
            assert(contributes(c1, l1, level));
        }
    }
    assert(matched_messages_level(c1, l1) == matched_messages_level(c2, l2));
    assert forall|m: MessageV| true implies has_msg_id(l1, m.id) == has_msg_id(l2, m.id) by {
        if has_msg_id(l1, m.id) {
            let k = choose|k: int| 0 <= k < l1.len() && (#[trigger] l1[k]).id == m.id;
            assert(l1.contains(l1[k]));
            lemma_contains_multiset(l1, l2, l1[k]);
            let j = choose|j: int| 0 <= j < l2.len() && l2[j] == l1[k];
            assert(has_msg_id(l2, m.id));
        }
        if has_msg_id(l2, m.id) {
            let k = choose|k: int| 0 <= k < l2.len() && (#[trigger] l2[k]).id == m.id;
            assert(l2.contains(l2[k]));
            lemma_contains_multiset(l1, l2, l2[k]);
            let j = choose|j: int| 0 <= j < l1.len() && l1[j] == l2[k];
            assert(has_msg_id(l1, m.id));
        }
    }
    if added_messages_level(c1, l1) == CompatibilityLevel::Forward {
        let j = choose|j: int| 0 <= j < c1.len() && !has_msg_id(l1, (#[trigger] c1[j]).id);
        assert(c1.contains(c1[j]));
        lemma_contains_multiset(c1, c2, c1[j]);
        let k = choose|k: int| 0 <= k < c2.len() && c2[k] == c1[j];
        assert(!has_msg_id(l2, c2[k].id));
        assert(added_messages_level(c2, l2) == CompatibilityLevel::Forward);
    }
    if added_messages_level(c2, l2) == CompatibilityLevel::Forward {
        let j = choose|j: int| 0 <= j < c2.len() && !has_msg_id(l2, (#[trigger] c2[j]).id);
        assert(c2.contains(c2[j]));
        lemma_contains_multiset(c1, c2, c2[j]);
        let k = choose|k: int| 0 <= k < c1.len() && c1[k] == c2[j];
        assert(!has_msg_id(l1, c1[k].id));
        assert(added_messages_level(c1, l1) == CompatibilityLevel::Forward);
    }
}

/// Reordering the message declarations of either schema, with everything
/// else unchanged, does not change the overall verdict, as long as message
/// ids are distinct.
pub proof fn lemma_check_reorder_messages(l1: SchemaV, c1: SchemaV, l2: SchemaV, c2: SchemaV)
    requires
        l2.package == l1.package,
        l2.id == l1.id,
        l2.version == l1.version,
        l2.semantic_version == l1.semantic_version,
        l2.byte_order == l1.byte_order,
        l2.types == l1.types,
        c2.package == c1.package,
        c2.id == c1.id,
        c2.version == c1.version,
        c2.semantic_version == c1.semantic_version,
        c2.byte_order == c1.byte_order,
        c2.types == c1.types,
        msg_seq(l1).to_multiset() == msg_seq(l2).to_multiset(),
        msg_seq(c1).to_multiset() == msg_seq(c2).to_multiset(),
        unique_message_ids(msg_seq(c1)),
        unique_message_ids(msg_seq(c2)),
    ensures
        check_schemas_spec(l1, c1) == check_schemas_spec(l2, c2),
{
    assert(message_header_v(l2) == message_header_v(l1));
    assert(message_header_v(c2) == message_header_v(c1));
    assert(types_verdict(l2, c2) == types_verdict(l1, c1));
    lemma_messages_level_reorder(msg_seq(c1), msg_seq(l1), msg_seq(c2), msg_seq(l2));
    assert(messages_verdict(l2, c2) == messages_verdict(l1, c1));
}

} // verus!

verus! {

use crate::evolution::validator::{
    flat_composites_opt, flat_enums_opt, flat_sets_opt, version_verdict,
};
use crate::types::{Composite, EnumType, SetType};

/// Reordering type declarations permutes the flattened bags of composites,
/// enums and sets; as long as the message header found is the same one, the
/// overall verdict does not change.
pub proof fn lemma_check_reorder_types(l1: SchemaV, c1: SchemaV, l2: SchemaV, c2: SchemaV)
    requires
        l2.package == l1.package,
        l2.id == l1.id,
        l2.version == l1.version,
        l2.semantic_version == l1.semantic_version,
        l2.byte_order == l1.byte_order,
        l2.messages == l1.messages,
        c2.package == c1.package,
        c2.id == c1.id,
        c2.version == c1.version,
        c2.semantic_version == c1.semantic_version,
        c2.byte_order == c1.byte_order,
        c2.messages == c1.messages,
        message_header_v(l2) == message_header_v(l1),
        message_header_v(c2) == message_header_v(c1),
        opt_seq_equiv(flat_composites_opt(l1.types), flat_composites_opt(l2.types)),
        opt_seq_equiv(flat_enums_opt(l1.types), flat_enums_opt(l2.types)),
        opt_seq_equiv(flat_sets_opt(l1.types), flat_sets_opt(l2.types)),
        opt_seq_equiv(flat_composites_opt(c1.types), flat_composites_opt(c2.types)),
        opt_seq_equiv(flat_enums_opt(c1.types), flat_enums_opt(c2.types)),
        opt_seq_equiv(flat_sets_opt(c1.types), flat_sets_opt(c2.types)),
    ensures
        check_schemas_spec(l1, c1) == check_schemas_spec(l2, c2),
{
    assert(version_verdict(l2.version, c2.version) == version_verdict(l1.version, c1.version));
    lemma_bag_verdict_reorder::<Composite>(
        flat_composites_opt(c1.types),
        flat_composites_opt(l1.types),
        flat_composites_opt(c2.types),
        flat_composites_opt(l2.types),
    );
    lemma_bag_verdict_reorder::<EnumType>(
        flat_enums_opt(c1.types),
        flat_enums_opt(l1.types),
        flat_enums_opt(c2.types),
        flat_enums_opt(l2.types),
    );
    lemma_bag_verdict_reorder::<SetType>(
        flat_sets_opt(c1.types),
        flat_sets_opt(l1.types),
        flat_sets_opt(c2.types),
        flat_sets_opt(l2.types),
    );
    assert(types_verdict(l2, c2) == types_verdict(l1, c1));
    assert(messages_verdict(l2, c2) == messages_verdict(l1, c1));
}

} // verus!

verus! {

use crate::evolution::validator::meets_threshold;

/// The acceptance table of the strategies: a `Full` minimum accepts only
/// `NoChange` and `Full`; `Backward` and `Forward` minimums also accept
/// their own direction; an `Incompatible` minimum accepts every verdict.
pub proof fn lemma_threshold_acceptance(verdict: CompatibilityLevel)
    ensures
        meets_threshold(verdict, CompatibilityLevel::Full) == (verdict
            == CompatibilityLevel::NoChange || verdict == CompatibilityLevel::Full),
        meets_threshold(verdict, CompatibilityLevel::Backward) == (verdict
            == CompatibilityLevel::NoChange || verdict == CompatibilityLevel::Full || verdict
            == CompatibilityLevel::Backward),
        meets_threshold(verdict, CompatibilityLevel::Forward) == (verdict
            == CompatibilityLevel::NoChange || verdict == CompatibilityLevel::Full || verdict
            == CompatibilityLevel::Forward),
        meets_threshold(verdict, CompatibilityLevel::Incompatible),
{
}

} // verus!

verus! {

use vstd::seq_lib::lemma_multiset_commutative;
use crate::evolution::validator::{
    block_composites, block_enums, block_sets, flat_composites, flat_enums, flat_sets,
};
use crate::types::{message_header_name, TypesV};

/// How often an item occurs among the items kept by a filter.
proof fn lemma_filter_multiset_count<A>(s: Seq<A>, p: spec_fn(A) -> bool, x: A)
    ensures
        s.filter(p).to_multiset().count(x) == if p(x) {
            s.to_multiset().count(x)
        } else {
            0
        },
    decreases s.len(),
{
    reveal(Seq::filter);
    broadcast use vstd::seq_lib::group_to_multiset_ensures;
    broadcast use vstd::multiset::group_multiset_axioms;

    if s.len() == 0 {
        assert(s.filter(p) =~= s);
        assert(!s.contains(x));
        assert(s.to_multiset().count(x) == 0);
    } else {
        let butlast = s.drop_last();
        lemma_filter_multiset_count(butlast, p, x);
        assert(s =~= butlast.push(s.last()));
        assert(s.to_multiset() =~= butlast.to_multiset().insert(s.last()));
        if p(s.last()) {
            assert(s.filter(p) == butlast.filter(p).push(s.last()));
            assert(s.filter(p).to_multiset() =~= butlast.filter(p).to_multiset().insert(s.last()));
        } else {
            assert(s.filter(p) == butlast.filter(p));
        }
    }
}

/// Filtering two sequences with the same items keeps the same items.
proof fn lemma_filter_multiset<A>(s1: Seq<A>, s2: Seq<A>, p: spec_fn(A) -> bool)
    requires
        s1.to_multiset() == s2.to_multiset(),
    ensures
        s1.filter(p).to_multiset() == s2.filter(p).to_multiset(),
{
    assert forall|x: A|
        s1.filter(p).to_multiset().count(x) == s2.filter(p).to_multiset().count(x) by {
        lemma_filter_multiset_count(s1, p, x);
        lemma_filter_multiset_count(s2, p, x);
    }
    assert(s1.filter(p).to_multiset() =~= s2.filter(p).to_multiset());
}

/// Two types blocks hold the same declarations, each kind in some order.
pub open spec fn blocks_equiv(t1: TypesV, t2: TypesV) -> bool {
    &&& opt_seq_equiv(t1.composites, t2.composites)
    &&& opt_seq_equiv(t1.enums, t2.enums)
    &&& opt_seq_equiv(t1.sets, t2.sets)
}

/// Two optional types sections hold the same blocks, block by block, with
/// the declarations of each block in some order.
pub open spec fn types_sections_equiv(a: Option<Seq<TypesV>>, b: Option<Seq<TypesV>>) -> bool {
    match (a, b) {
        (None, None) => true,
        (Some(ts1), Some(ts2)) => ts1.len() == ts2.len() && forall|i: int|
            0 <= i < ts1.len() ==> blocks_equiv(#[trigger] ts1[i], ts2[i]),
        _ => false,
    }
}

/// Reordering the declarations of one types block does not change the items
/// it contributes to the flattened bags.
proof fn lemma_block_equiv_multisets(t1: TypesV, t2: TypesV)
    requires
        blocks_equiv(t1, t2),
    ensures
        block_composites(t1).to_multiset() == block_composites(t2).to_multiset(),
        block_enums(t1).to_multiset() == block_enums(t2).to_multiset(),
        block_sets(t1).to_multiset() == block_sets(t2).to_multiset(),
{
    match (t1.composites, t2.composites) {
        (Some(cs1), Some(cs2)) => {
            lemma_filter_multiset(
                cs1,
                cs2,
                |c: crate::types::CompositeV| c.name != message_header_name(),
            );
        },
        _ => {},
    }
}

/// Reordering the declarations inside the blocks of a types section does
/// not change the flattened bags.
proof fn lemma_flat_equiv(ts1: Seq<TypesV>, ts2: Seq<TypesV>)
    requires
        ts1.len() == ts2.len(),
        forall|i: int| 0 <= i < ts1.len() ==> blocks_equiv(#[trigger] ts1[i], ts2[i]),
    ensures
        flat_composites(ts1).to_multiset() == flat_composites(ts2).to_multiset(),
        flat_enums(ts1).to_multiset() == flat_enums(ts2).to_multiset(),
        flat_sets(ts1).to_multiset() == flat_sets(ts2).to_multiset(),
    decreases ts1.len(),
{
    let mc = |t: TypesV| block_composites(t);
    let me = |t: TypesV| block_enums(t);
    let ms = |t: TypesV| block_sets(t);
    if ts1.len() == 0 {
        assert(ts1.map_values(mc) =~= ts2.map_values(mc));
        assert(ts1.map_values(me) =~= ts2.map_values(me));
        assert(ts1.map_values(ms) =~= ts2.map_values(ms));
    } else {
        let tl1 = ts1.drop_first();
        let tl2 = ts2.drop_first();
        assert forall|i: int| 0 <= i < tl1.len() implies blocks_equiv(#[trigger] tl1[i], tl2[i]) by {
            assert(tl1[i] == ts1[i + 1]);
            assert(tl2[i] == ts2[i + 1]);
        }
        lemma_flat_equiv(tl1, tl2);
        lemma_block_equiv_multisets(ts1[0], ts2[0]);
        assert(ts1.map_values(mc).drop_first() =~= tl1.map_values(mc));
        assert(ts2.map_values(mc).drop_first() =~= tl2.map_values(mc));
        assert(ts1.map_values(me).drop_first() =~= tl1.map_values(me));
        assert(ts2.map_values(me).drop_first() =~= tl2.map_values(me));
        assert(ts1.map_values(ms).drop_first() =~= tl1.map_values(ms));
        assert(ts2.map_values(ms).drop_first() =~= tl2.map_values(ms));
        assert(flat_composites(ts1) == block_composites(ts1[0]) + flat_composites(tl1));
        assert(flat_composites(ts2) == block_composites(ts2[0]) + flat_composites(tl2));
        lemma_multiset_commutative(block_composites(ts1[0]), flat_composites(tl1));
        lemma_multiset_commutative(block_composites(ts2[0]), flat_composites(tl2));
        assert(flat_composites(ts1).to_multiset() =~= flat_composites(ts2).to_multiset());
        assert(flat_enums(ts1) == block_enums(ts1[0]) + flat_enums(tl1));
        assert(flat_enums(ts2) == block_enums(ts2[0]) + flat_enums(tl2));
        lemma_multiset_commutative(block_enums(ts1[0]), flat_enums(tl1));
        lemma_multiset_commutative(block_enums(ts2[0]), flat_enums(tl2));
        assert(flat_enums(ts1).to_multiset() =~= flat_enums(ts2).to_multiset());
        assert(flat_sets(ts1) == block_sets(ts1[0]) + flat_sets(tl1));
        assert(flat_sets(ts2) == block_sets(ts2[0]) + flat_sets(tl2));
        lemma_multiset_commutative(block_sets(ts1[0]), flat_sets(tl1));
        lemma_multiset_commutative(block_sets(ts2[0]), flat_sets(tl2));
        assert(flat_sets(ts1).to_multiset() =~= flat_sets(ts2).to_multiset());
    }
}

/// Reordering the sibling declarations inside the types blocks of either
/// schema, with everything else unchanged, does not change the overall
/// verdict, as long as the same message header composite is found.
pub proof fn lemma_check_reorder_type_declarations(
    l1: SchemaV,
    c1: SchemaV,
    l2: SchemaV,
    c2: SchemaV,
)
    requires
        l2.package == l1.package,
        l2.id == l1.id,
        l2.version == l1.version,
        l2.semantic_version == l1.semantic_version,
        l2.byte_order == l1.byte_order,
        l2.messages == l1.messages,
        c2.package == c1.package,
        c2.id == c1.id,
        c2.version == c1.version,
        c2.semantic_version == c1.semantic_version,
        c2.byte_order == c1.byte_order,
        c2.messages == c1.messages,
        types_sections_equiv(l1.types, l2.types),
        types_sections_equiv(c1.types, c2.types),
        message_header_v(l2) == message_header_v(l1),
        message_header_v(c2) == message_header_v(c1),
    ensures
        check_schemas_spec(l1, c1) == check_schemas_spec(l2, c2),
{
    match (l1.types, l2.types) {
        (Some(ts1), Some(ts2)) => {
            lemma_flat_equiv(ts1, ts2);
        },
        _ => {},
    }
    match (c1.types, c2.types) {
        (Some(ts1), Some(ts2)) => {
            lemma_flat_equiv(ts1, ts2);
        },
        _ => {},
    }
    lemma_check_reorder_types(l1, c1, l2, c2);
}

} // verus!

verus! {

use crate::evolution::validator::strategy_outcome;

/// The full-compatibility strategy accepts an evolution whose only change
/// is a version bump by exactly one, and returns the `Full` verdict.
pub proof fn lemma_full_strategy_accepts_single_bump(l: SchemaV, c: SchemaV)
    requires
        c.package == l.package,
        c.id == l.id,
        c.semantic_version == l.semantic_version,
        c.byte_order == l.byte_order,
        c.types == l.types,
        c.messages == l.messages,
        l.version is Some,
        c.version is Some,
        c.version.unwrap() == l.version.unwrap() + 1,
        message_header_v(l) is Some,
        unique_message_ids(msg_seq(l)),
    ensures
        strategy_outcome(CompatibilityLevel::Full, l, c) == Ok::<
            CompatibilityLevel,
            EvolutionError,
        >(CompatibilityLevel::Full),
{
    lemma_version_bump_only(l, c);
}

} // verus!

verus! {

use crate::types::{first_composite_named, header_in_block, header_in_blocks};

/// Whether the composite at block `b`, position `j` exists and carries the
/// given name.
pub open spec fn composite_named_at(ts: Seq<TypesV>, b: int, j: int, name: Seq<char>) -> bool {
    &&& 0 <= b < ts.len()
    &&& match ts[b].composites {
        Some(cs) => 0 <= j < cs.len() && cs[j].name == name,
        None => false,
    }
}

/// Whether at most one composite of the blocks carries the given name.
pub open spec fn at_most_one_composite_named(ts: Seq<TypesV>, name: Seq<char>) -> bool {
    forall|b1: int, j1: int, b2: int, j2: int|
        #![trigger composite_named_at(ts, b1, j1, name), composite_named_at(ts, b2, j2, name)]
        composite_named_at(ts, b1, j1, name) && composite_named_at(ts, b2, j2, name) ==> b1 == b2
            && j1 == j2
}

/// What finding the first composite of a name means: a found composite is a
/// member carrying the name, and nothing is found only when no member
/// carries it.
proof fn lemma_first_named_membership(cs: Seq<crate::types::CompositeV>, name: Seq<char>)
    ensures
        match first_composite_named(cs, name) {
            Some(c) => cs.contains(c) && c.name == name,
            None => forall|i: int| 0 <= i < cs.len() ==> (#[trigger] cs[i]).name != name,
        },
    decreases cs.len(),
{
    if cs.len() == 0 {
    } else if cs[0].name == name {
        assert(cs.contains(cs[0]));
    } else {
        let tail = cs.drop_first();
        lemma_first_named_membership(tail, name);
        match first_composite_named(tail, name) {
            Some(c) => {
                let k = choose|k: int| 0 <= k < tail.len() && tail[k] == c;
                assert(cs[k + 1] == c);
                assert(cs.contains(cs[k + 1]));
            },
            None => {
                assert forall|i: int| 0 <= i < cs.len() implies (#[trigger] cs[i]).name
                    != name by {
                    if i >= 1 {
                        assert(tail[i - 1] == cs[i]);
                    }
                }
            },
        }
    }
}

/// When at most one composite carries the message header name, reordering
/// the composites inside the blocks does not change which composite is
/// found as the header.
proof fn lemma_header_found_reorder(ts1: Seq<TypesV>, ts2: Seq<TypesV>)
    requires
        ts1.len() == ts2.len(),
        forall|i: int| 0 <= i < ts1.len() ==> blocks_equiv(#[trigger] ts1[i], ts2[i]),
        at_most_one_composite_named(ts1, message_header_name()),
        at_most_one_composite_named(ts2, message_header_name()),
    ensures
        header_in_blocks(ts1) == header_in_blocks(ts2),
    decreases ts1.len(),
{
    broadcast use vstd::seq_lib::group_to_multiset_ensures;

    let name = message_header_name();
    if ts1.len() == 0 {
    } else {
        match (ts1[0].composites, ts2[0].composites) {
            (Some(cs1), Some(cs2)) => {
                lemma_first_named_membership(cs1, name);
                lemma_first_named_membership(cs2, name);
                match first_composite_named(cs1, name) {
                    Some(c) => {
                        lemma_contains_multiset(cs1, cs2, c);
                        let p = choose|p: int| 0 <= p < cs2.len() && cs2[p] == c;
                        assert(composite_named_at(ts2, 0, p, name));
                        match first_composite_named(cs2, name) {
                            Some(c2) => {
                                let q = choose|q: int| 0 <= q < cs2.len() && cs2[q] == c2;
                                assert(composite_named_at(ts2, 0, q, name));
                                assert(p == q);
                            },
                            None => {
                                assert(cs2[p].name != name);
                                assert(false);
                            },
                        }
                    },
                    None => {
                        match first_composite_named(cs2, name) {
                            Some(c2) => {
                                lemma_contains_multiset(cs1, cs2, c2);
                                let p = choose|p: int| 0 <= p < cs1.len() && cs1[p] == c2;
                                assert(cs1[p].name != name);
                                assert(false);
                            },
                            None => {},
                        }
                    },
                }
            },
            (None, None) => {},
            _ => {
                assert(false);
            },
        }
        assert(header_in_block(ts1[0]) == header_in_block(ts2[0]));
        if header_in_block(ts1[0]) is None {
            let tl1 = ts1.drop_first();
            let tl2 = ts2.drop_first();
            assert forall|i: int| 0 <= i < tl1.len() implies blocks_equiv(
                #[trigger] tl1[i],
                tl2[i],
            ) by {
                assert(tl1[i] == ts1[i + 1]);
                assert(tl2[i] == ts2[i + 1]);
            }
            assert forall|b1: int, j1: int, b2: int, j2: int|
                composite_named_at(tl1, b1, j1, name) && composite_named_at(
                    tl1,
                    b2,
                    j2,
                    name,
                ) implies (b1 == b2 && j1 == j2) by {
                assert(tl1[b1] == ts1[b1 + 1]);
                assert(tl1[b2] == ts1[b2 + 1]);
                assert(composite_named_at(ts1, b1 + 1, j1, name));
                assert(composite_named_at(ts1, b2 + 1, j2, name));
            }
            assert forall|b1: int, j1: int, b2: int, j2: int|
                composite_named_at(tl2, b1, j1, name) && composite_named_at(
                    tl2,
                    b2,
                    j2,
                    name,
                ) implies (b1 == b2 && j1 == j2) by {
                assert(tl2[b1] == ts2[b1 + 1]);
                assert(tl2[b2] == ts2[b2 + 1]);
                assert(composite_named_at(ts2, b1 + 1, j1, name));
                assert(composite_named_at(ts2, b2 + 1, j2, name));
            }
            lemma_header_found_reorder(tl1, tl2);
        }
    }
}

/// Reordering the sibling declarations inside the types blocks of either
/// schema, with everything else unchanged, does not change the overall
/// verdict, as long as each schema declares the message header name at most
/// once.
pub proof fn lemma_check_reorder_siblings(l1: SchemaV, c1: SchemaV, l2: SchemaV, c2: SchemaV)
    requires
        l2.package == l1.package,
        l2.id == l1.id,
        l2.version == l1.version,
        l2.semantic_version == l1.semantic_version,
        l2.byte_order == l1.byte_order,
        l2.messages == l1.messages,
        c2.package == c1.package,
        c2.id == c1.id,
        c2.version == c1.version,
        c2.semantic_version == c1.semantic_version,
        c2.byte_order == c1.byte_order,
        c2.messages == c1.messages,
        types_sections_equiv(l1.types, l2.types),
        types_sections_equiv(c1.types, c2.types),
        at_most_one_composite_named(crate::types::schema_blocks(l1), message_header_name()),
        at_most_one_composite_named(crate::types::schema_blocks(l2), message_header_name()),
        at_most_one_composite_named(crate::types::schema_blocks(c1), message_header_name()),
        at_most_one_composite_named(crate::types::schema_blocks(c2), message_header_name()),
    ensures
        check_schemas_spec(l1, c1) == check_schemas_spec(l2, c2),
{
    match (l1.types, l2.types) {
        (Some(ts1), Some(ts2)) => {
            lemma_header_found_reorder(ts1, ts2);
        },
        _ => {},
    }
    match (c1.types, c2.types) {
        (Some(ts1), Some(ts2)) => {
            lemma_header_found_reorder(ts1, ts2);
        },
        _ => {},
    }
    lemma_check_reorder_type_declarations(l1, c1, l2, c2);
}

} // verus!

verus! {

/// Two messages that differ only in the order of their fields.
pub open spec fn message_fields_equiv(m1: MessageV, m2: MessageV) -> bool {
    &&& m2.id == m1.id
    &&& opt_seq_equiv(m1.fields, m2.fields)
    &&& m2.groups == m1.groups
    &&& m2.semantic_type == m1.semantic_type
}

/// Two message bags that agree message by message, each message's fields in
/// some order.
pub open spec fn messages_fields_equiv(ms1: Seq<MessageV>, ms2: Seq<MessageV>) -> bool {
    ms1.len() == ms2.len() && forall|i: int|
        0 <= i < ms1.len() ==> message_fields_equiv(#[trigger] ms1[i], ms2[i])
}

/// Searching equivalent message bags by id finds equivalent messages.
proof fn lemma_msg_by_id_fields_equiv(c1: Seq<MessageV>, c2: Seq<MessageV>, id: u32)
    requires
        messages_fields_equiv(c1, c2),
    ensures
        match (msg_by_id(c1, id), msg_by_id(c2, id)) {
            (Some(m1), Some(m2)) => message_fields_equiv(m1, m2),
            (None, None) => true,
            _ => false,
        },
    decreases c1.len(),
{
    if c1.len() > 0 {
        assert(message_fields_equiv(c1[0], c2[0]));
        if c1[0].id != id {
            let tl1 = c1.drop_first();
            let tl2 = c2.drop_first();
            assert forall|i: int| 0 <= i < tl1.len() implies message_fields_equiv(
                #[trigger] tl1[i],
                tl2[i],
            ) by {
                assert(tl1[i] == c1[i + 1]);
                assert(tl2[i] == c2[i + 1]);
            }
            lemma_msg_by_id_fields_equiv(tl1, tl2, id);
        }
    }
}

/// Matched messages with reordered fields get the same pair verdict.
proof fn lemma_pair_verdict_fields_equiv(
    cm1: MessageV,
    lm1: MessageV,
    cm2: MessageV,
    lm2: MessageV,
)
    requires
        message_fields_equiv(cm1, cm2),
        message_fields_equiv(lm1, lm2),
    ensures
        message_pair_verdict(cm1, lm1) == message_pair_verdict(cm2, lm2),
{
    lemma_bag_verdict_reorder::<crate::types::Field>(cm1.fields, lm1.fields, cm2.fields, lm2.fields);
}

/// The fold over the latest messages is blind to the order of each
/// message's fields.
proof fn lemma_matched_fields_equiv(
    c1: Seq<MessageV>,
    l1: Seq<MessageV>,
    c2: Seq<MessageV>,
    l2: Seq<MessageV>,
)
    requires
        messages_fields_equiv(c1, c2),
        messages_fields_equiv(l1, l2),
    ensures
        matched_messages_level(c1, l1) == matched_messages_level(c2, l2),
    decreases l1.len(),
{
    if l1.len() > 0 {
        let hd1 = l1.drop_last();
        let hd2 = l2.drop_last();
        assert forall|i: int| 0 <= i < hd1.len() implies message_fields_equiv(
            #[trigger] hd1[i],
            hd2[i],
        ) by {
            assert(hd1[i] == l1[i]);
            assert(hd2[i] == l2[i]);
        }
        lemma_matched_fields_equiv(c1, hd1, c2, hd2);
        assert(message_fields_equiv(l1[l1.len() - 1], l2[l2.len() - 1]));
        lemma_msg_by_id_fields_equiv(c1, c2, l1.last().id);
        match (msg_by_id(c1, l1.last().id), msg_by_id(c2, l2.last().id)) {
            (Some(cm1), Some(cm2)) => {
                lemma_pair_verdict_fields_equiv(cm1, l1.last(), cm2, l2.last());
            },
            _ => {},
        }
    }
}

/// Reordering the fields inside the messages of either schema, with
/// everything else unchanged, does not change the overall verdict.
pub proof fn lemma_check_reorder_fields(l1: SchemaV, c1: SchemaV, l2: SchemaV, c2: SchemaV)
    requires
        l2.package == l1.package,
        l2.id == l1.id,
        l2.version == l1.version,
        l2.semantic_version == l1.semantic_version,
        l2.byte_order == l1.byte_order,
        l2.types == l1.types,
        c2.package == c1.package,
        c2.id == c1.id,
        c2.version == c1.version,
        c2.semantic_version == c1.semantic_version,
        c2.byte_order == c1.byte_order,
        c2.types == c1.types,
        messages_fields_equiv(msg_seq(l1), msg_seq(l2)),
        messages_fields_equiv(msg_seq(c1), msg_seq(c2)),
    ensures
        check_schemas_spec(l1, c1) == check_schemas_spec(l2, c2),
{
    assert(message_header_v(l2) == message_header_v(l1));
    assert(message_header_v(c2) == message_header_v(c1));
    assert(types_verdict(l2, c2) == types_verdict(l1, c1));
    lemma_matched_fields_equiv(msg_seq(c1), msg_seq(l1), msg_seq(c2), msg_seq(l2));
    let lm1 = msg_seq(l1);
    let lm2 = msg_seq(l2);
    let cm1 = msg_seq(c1);
    let cm2 = msg_seq(c2);
    assert forall|x: u32| true implies has_msg_id(lm1, x) == has_msg_id(lm2, x) by {
        if has_msg_id(lm1, x) {
            let k = choose|k: int| 0 <= k < lm1.len() && (#[trigger] lm1[k]).id == x;
            assert(message_fields_equiv(lm1[k], lm2[k]));
            assert(lm2[k].id == x);
        }
        if has_msg_id(lm2, x) {
            let k = choose|k: int| 0 <= k < lm2.len() && (#[trigger] lm2[k]).id == x;
            assert(message_fields_equiv(lm1[k], lm2[k]));
            assert(lm1[k].id == x);
        }
    }
    assert(added_messages_level(cm1, lm1) == added_messages_level(cm2, lm2)) by {
        if added_messages_level(cm1, lm1) == CompatibilityLevel::Forward {
            let j = choose|j: int| 0 <= j < cm1.len() && !has_msg_id(lm1, (#[trigger] cm1[j]).id);
            assert(message_fields_equiv(cm1[j], cm2[j]));
            assert(!has_msg_id(lm2, cm2[j].id));
        }
        if added_messages_level(cm2, lm2) == CompatibilityLevel::Forward {
            let j = choose|j: int| 0 <= j < cm2.len() && !has_msg_id(lm2, (#[trigger] cm2[j]).id);
            assert(message_fields_equiv(cm1[j], cm2[j]));
            assert(!has_msg_id(lm1, cm1[j].id));
        }
    }
    assert(messages_verdict(l2, c2) == messages_verdict(l1, c1));
}

} // verus!

verus! {

/// The strategy that accepts all changes returns the comparator's raw
/// verdict and surfaces its errors unchanged: every verdict meets the
/// weakest threshold.
pub proof fn lemma_none_strategy_returns_raw_verdict(l: SchemaV, c: SchemaV)
    ensures
        strategy_outcome(CompatibilityLevel::Incompatible, l, c) == check_schemas_spec(l, c),
{
    match check_schemas_spec(l, c) {
        Err(_) => {},
        Ok(verdict) => {
            assert(meets_threshold(verdict, CompatibilityLevel::Incompatible));
        },
    }
}

} // verus!
