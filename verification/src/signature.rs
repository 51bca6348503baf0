//! Stable content signatures of the schema model.
//!
//! A signature is computed from a value's view alone, so everything that
//! structural equality ignores, the signature ignores too: two values with
//! the same wire-relevant content always carry the same signature.

use vstd::prelude::*;

use crate::types::{
    view_opt_seq, view_seq, ByteOrder, Choice, ChoiceV, Composite, CompositeV, Data, DataV,
    EnumType, EnumTypeV, Field, FieldV, Group, GroupV, Message, MessageV, Presence, PrimitiveType,
    Ref, RefV, Schema, SchemaV, SematicVersion, SematicVersionV, SetType, SetTypeV, Type, TypeV,
    Types, TypesV, ValidValue, ValidValueV,
};

verus! {

/// The starting value of a content signature.
pub const SIGNATURE_BASIS: u64 = 0xcbf29ce484222325;

/// The multiplier folded in after every word.
pub const SIGNATURE_PRIME: u64 = 0x100000001b3;

/// Fold one word into a running signature.
pub open spec fn sig_word(h: u64, w: u64) -> u64 {
    (h ^ w).wrapping_mul(SIGNATURE_PRIME)
}

fn sig_word_exec(h: u64, w: u64) -> (r: u64)
    ensures
        r == sig_word(h, w),
{
    (h ^ w).wrapping_mul(SIGNATURE_PRIME)
}

/// Fold a character sequence into a running signature.
pub open spec fn sig_chars(h: u64, s: Seq<char>) -> u64
    decreases s.len(),
{
    if s.len() == 0 {
        h
    } else {
        sig_chars(sig_word(h, s[0] as u64), s.drop_first())
    }
}

fn sig_string(h: u64, s: &String) -> (r: u64)
    ensures
        r == sig_chars(h, s@),
{
    let n = s.as_str().unicode_len();
    let ghost sv = s@;
    proof {
        assert(sv.skip(0) =~= sv);
    }
    let mut acc = h;
    let mut i: usize = 0;
    while i < n
        invariant
            i <= n,
            n == sv.len(),
            sv == s@,
            sig_chars(acc, sv.skip(i as int)) == sig_chars(h, sv),
        decreases n - i,
    {
        let c = s.as_str().get_char(i);
        proof {
            assert(sv.skip(i as int)[0] == sv[i as int]);
            assert(sv.skip(i as int).drop_first() =~= sv.skip(i as int + 1));
        }
        acc = sig_word_exec(acc, c as u64);
        i += 1;
    }
    proof {
        assert(sv.skip(i as int).len() == 0);
    }
    acc
}

/// Fold an optional character sequence into a running signature; absence is
/// distinguished from every present value.
pub open spec fn sig_opt_chars(h: u64, o: Option<Seq<char>>) -> u64 {
    match o {
        None => sig_word(h, 0),
        Some(s) => sig_chars(sig_word(h, 1), s),
    }
}

fn sig_opt_string(h: u64, o: &Option<String>) -> (r: u64)
    ensures
        r == sig_opt_chars(h, crate::types::view_opt(*o)),
{
    match o {
        None => sig_word_exec(h, 0),
        Some(s) => sig_string(sig_word_exec(h, 1), s),
    }
}

/// Fold an optional number into a running signature.
pub open spec fn sig_opt_u32(h: u64, o: Option<u32>) -> u64 {
    match o {
        None => sig_word(h, 0),
        Some(x) => sig_word(sig_word(h, 1), x as u64),
    }
}

fn sig_opt_u32_exec(h: u64, o: &Option<u32>) -> (r: u64)
    ensures
        r == sig_opt_u32(h, *o),
{
    match o {
        None => sig_word_exec(h, 0),
        Some(x) => sig_word_exec(sig_word_exec(h, 1), *x as u64),
    }
}

/// The word standing for a presence value.
pub open spec fn presence_word(p: Presence) -> u64 {
    match p {
        Presence::Constant => 1,
        Presence::Required => 2,
        Presence::Optional => 3,
    }
}

/// Fold an optional presence into a running signature.
pub open spec fn sig_opt_presence(h: u64, o: Option<Presence>) -> u64 {
    match o {
        None => sig_word(h, 0),
        Some(p) => sig_word(sig_word(h, 1), presence_word(p)),
    }
}

fn sig_opt_presence_exec(h: u64, o: &Option<Presence>) -> (r: u64)
    ensures
        r == sig_opt_presence(h, *o),
{
    match o {
        None => sig_word_exec(h, 0),
        Some(Presence::Constant) => sig_word_exec(sig_word_exec(h, 1), 1),
        Some(Presence::Required) => sig_word_exec(sig_word_exec(h, 1), 2),
        Some(Presence::Optional) => sig_word_exec(sig_word_exec(h, 1), 3),
    }
}

/// The word standing for a primitive type.
pub open spec fn primitive_word(p: PrimitiveType) -> u64 {
    match p {
        PrimitiveType::Uint8 => 1,
        PrimitiveType::Int8 => 2,
        PrimitiveType::Uint16 => 3,
        PrimitiveType::Int16 => 4,
        PrimitiveType::Uint32 => 5,
        PrimitiveType::Int32 => 6,
        PrimitiveType::Uint64 => 7,
        PrimitiveType::Int64 => 8,
        PrimitiveType::Char => 9,
        PrimitiveType::Float => 10,
        PrimitiveType::Double => 11,
    }
}

fn primitive_word_exec(p: &PrimitiveType) -> (r: u64)
    ensures
        r == primitive_word(*p),
{
    match p {
        PrimitiveType::Uint8 => 1,
        PrimitiveType::Int8 => 2,
        PrimitiveType::Uint16 => 3,
        PrimitiveType::Int16 => 4,
        PrimitiveType::Uint32 => 5,
        PrimitiveType::Int32 => 6,
        PrimitiveType::Uint64 => 7,
        PrimitiveType::Int64 => 8,
        PrimitiveType::Char => 9,
        PrimitiveType::Float => 10,
        PrimitiveType::Double => 11,
    }
}

/// Fold an optional primitive type into a running signature.
pub open spec fn sig_opt_primitive(h: u64, o: Option<PrimitiveType>) -> u64 {
    match o {
        None => sig_word(h, 0),
        Some(p) => sig_word(sig_word(h, 1), primitive_word(p)),
    }
}

fn sig_opt_primitive_exec(h: u64, o: &Option<PrimitiveType>) -> (r: u64)
    ensures
        r == sig_opt_primitive(h, *o),
{
    match o {
        None => sig_word_exec(h, 0),
        Some(p) => sig_word_exec(sig_word_exec(h, 1), primitive_word_exec(p)),
    }
}

/// The word standing for a byte order.
pub open spec fn byte_order_word(b: ByteOrder) -> u64 {
    match b {
        ByteOrder::LittleEndian => 1,
        ByteOrder::BigEndian => 2,
    }
}

/// Fold an optional byte order into a running signature.
pub open spec fn sig_opt_byte_order(h: u64, o: Option<ByteOrder>) -> u64 {
    match o {
        None => sig_word(h, 0),
        Some(b) => sig_word(sig_word(h, 1), byte_order_word(b)),
    }
}

fn sig_opt_byte_order_exec(h: u64, o: &Option<ByteOrder>) -> (r: u64)
    ensures
        r == sig_opt_byte_order(h, *o),
{
    match o {
        None => sig_word_exec(h, 0),
        Some(ByteOrder::LittleEndian) => sig_word_exec(sig_word_exec(h, 1), 1),
        Some(ByteOrder::BigEndian) => sig_word_exec(sig_word_exec(h, 1), 2),
    }
}

/// Fold the content of a semantic version into a running signature.
pub open spec fn semantic_version_content_sig(h: u64, v: SematicVersionV) -> u64 {
    sig_chars(
        sig_chars(sig_word(sig_word(sig_word(h, v.major), v.minor), v.patch), v.pre),
        v.build_metadata,
    )
}

fn semantic_version_sig(h: u64, x: &SematicVersion) -> (r: u64)
    ensures
        r == semantic_version_content_sig(h, x@),
{
    let h0 = sig_word_exec(h, x.major);
    let h1 = sig_word_exec(h0, x.minor);
    let h2 = sig_word_exec(h1, x.patch);
    let h3 = sig_string(h2, &x.pre);
    sig_string(h3, &x.build_metadata)
}

} // verus!

verus! {

/// Fold the wire-relevant content of a valid value into a running signature.
pub open spec fn valid_value_content_sig(h: u64, v: ValidValueV) -> u64 {
    let h0 = sig_chars(h, v.name);
    let h1 = sig_chars(h0, v.value);
    h1
}

fn valid_value_sig(h: u64, x: &ValidValue) -> (r: u64)
    ensures
        r == valid_value_content_sig(h, x@),
{
    let h0 = sig_string(h, &x.name);
    let h1 = sig_string(h0, &x.value);
    h1
}

/// Fold the contents of a sequence of valid values into a running signature.
pub open spec fn valid_value_seq_sig(h: u64, s: Seq<ValidValueV>) -> u64
    decreases s.len(),
{
    if s.len() == 0 {
        h
    } else {
        valid_value_seq_sig(valid_value_content_sig(h, s[0]), s.drop_first())
    }
}

/// Fold an optional sequence of valid values into a running signature.
pub open spec fn valid_value_opt_seq_sig(h: u64, o: Option<Seq<ValidValueV>>) -> u64 {
    match o {
        None => sig_word(h, 0),
        Some(s) => valid_value_seq_sig(sig_word(sig_word(h, 1), s.len() as u64), s),
    }
}

fn valid_value_vec_sig(h: u64, v: &Vec<ValidValue>) -> (r: u64)
    ensures
        r == valid_value_seq_sig(h, view_seq(v@)),
{
    let ghost sv = view_seq(v@);
    proof {
        assert(sv.skip(0) =~= sv);
    }
    let mut acc = h;
    let mut i: usize = 0;
    while i < v.len()
        invariant
            i <= v.len(),
            sv == view_seq(v@),
            sv.len() == v@.len(),
            valid_value_seq_sig(acc, sv.skip(i as int)) == valid_value_seq_sig(h, sv),
        decreases v.len() - i,
    {
        proof {
            assert(sv[i as int] == v@[i as int]@);
            assert(sv.skip(i as int)[0] == sv[i as int]);
            assert(sv.skip(i as int).drop_first() =~= sv.skip(i as int + 1));
        }
        acc = valid_value_sig(acc, &v[i]);
        i += 1;
    }
    proof {
        assert(sv.skip(i as int).len() == 0);
    }
    acc
}

fn valid_value_opt_vec_sig(h: u64, o: &Option<Vec<ValidValue>>) -> (r: u64)
    ensures
        r == valid_value_opt_seq_sig(h, view_opt_seq(*o)),
{
    match o {
        None => sig_word_exec(h, 0),
        Some(v) => {
            let tagged = sig_word_exec(sig_word_exec(h, 1), v.len() as u64);
            proof {
                assert(view_seq(v@).len() == v@.len());
            }
            valid_value_vec_sig(tagged, v)
        },
    }
}

/// Fold the wire-relevant content of a choice into a running signature.
pub open spec fn choice_content_sig(h: u64, v: ChoiceV) -> u64 {
    let h0 = sig_chars(h, v.name);
    let h1 = sig_chars(h0, v.value);
    h1
}

fn choice_sig(h: u64, x: &Choice) -> (r: u64)
    ensures
        r == choice_content_sig(h, x@),
{
    let h0 = sig_string(h, &x.name);
    let h1 = sig_string(h0, &x.value);
    h1
}

/// Fold the contents of a sequence of choices into a running signature.
pub open spec fn choice_seq_sig(h: u64, s: Seq<ChoiceV>) -> u64
    decreases s.len(),
{
    if s.len() == 0 {
        h
    } else {
        choice_seq_sig(choice_content_sig(h, s[0]), s.drop_first())
    }
}

/// Fold an optional sequence of choices into a running signature.
pub open spec fn choice_opt_seq_sig(h: u64, o: Option<Seq<ChoiceV>>) -> u64 {
    match o {
        None => sig_word(h, 0),
        Some(s) => choice_seq_sig(sig_word(sig_word(h, 1), s.len() as u64), s),
    }
}

fn choice_vec_sig(h: u64, v: &Vec<Choice>) -> (r: u64)
    ensures
        r == choice_seq_sig(h, view_seq(v@)),
{
    let ghost sv = view_seq(v@);
    proof {
        assert(sv.skip(0) =~= sv);
    }
    let mut acc = h;
    let mut i: usize = 0;
    while i < v.len()
        invariant
            i <= v.len(),
            sv == view_seq(v@),
            sv.len() == v@.len(),
            choice_seq_sig(acc, sv.skip(i as int)) == choice_seq_sig(h, sv),
        decreases v.len() - i,
    {
        proof {
            assert(sv[i as int] == v@[i as int]@);
            assert(sv.skip(i as int)[0] == sv[i as int]);
            assert(sv.skip(i as int).drop_first() =~= sv.skip(i as int + 1));
        }
        acc = choice_sig(acc, &v[i]);
        i += 1;
    }
    proof {
        assert(sv.skip(i as int).len() == 0);
    }
    acc
}

fn choice_opt_vec_sig(h: u64, o: &Option<Vec<Choice>>) -> (r: u64)
    ensures
        r == choice_opt_seq_sig(h, view_opt_seq(*o)),
{
    match o {
        None => sig_word_exec(h, 0),
        Some(v) => {
            let tagged = sig_word_exec(sig_word_exec(h, 1), v.len() as u64);
            proof {
                assert(view_seq(v@).len() == v@.len());
            }
            choice_vec_sig(tagged, v)
        },
    }
}

/// Fold the wire-relevant content of a type declaration into a running signature.
pub open spec fn type_content_sig(h: u64, v: TypeV) -> u64 {
    let h0 = sig_chars(h, v.name);
    let h1 = sig_opt_primitive(h0, v.primitive_type);
    let h2 = sig_opt_u32(h1, v.length);
    let h3 = sig_opt_chars(h2, v.max_value);
    let h4 = sig_opt_chars(h3, v.min_value);
    let h5 = sig_opt_chars(h4, v.null_value);
    let h6 = sig_opt_chars(h5, v.character_encoding);
    let h7 = sig_opt_presence(h6, v.presence);
    let h8 = sig_opt_u32(h7, v.since_version);
    let h9 = sig_opt_chars(h8, v.value);
    h9
}

fn type_sig(h: u64, x: &Type) -> (r: u64)
    ensures
        r == type_content_sig(h, x@),
{
    let h0 = sig_string(h, &x.name);
    let h1 = sig_opt_primitive_exec(h0, &x.primitive_type);
    let h2 = sig_opt_u32_exec(h1, &x.length);
    let h3 = sig_opt_string(h2, &x.max_value);
    let h4 = sig_opt_string(h3, &x.min_value);
    let h5 = sig_opt_string(h4, &x.null_value);
    let h6 = sig_opt_string(h5, &x.character_encoding);
    let h7 = sig_opt_presence_exec(h6, &x.presence);
    let h8 = sig_opt_u32_exec(h7, &x.since_version);
    let h9 = sig_opt_string(h8, &x.value);
    h9
}

/// Fold the contents of a sequence of type declarations into a running signature.
pub open spec fn type_seq_sig(h: u64, s: Seq<TypeV>) -> u64
    decreases s.len(),
{
    if s.len() == 0 {
        h
    } else {
        type_seq_sig(type_content_sig(h, s[0]), s.drop_first())
    }
}

/// Fold an optional sequence of type declarations into a running signature.
pub open spec fn type_opt_seq_sig(h: u64, o: Option<Seq<TypeV>>) -> u64 {
    match o {
        None => sig_word(h, 0),
        Some(s) => type_seq_sig(sig_word(sig_word(h, 1), s.len() as u64), s),
    }
}

fn type_vec_sig(h: u64, v: &Vec<Type>) -> (r: u64)
    ensures
        r == type_seq_sig(h, view_seq(v@)),
{
    let ghost sv = view_seq(v@);
    proof {
        assert(sv.skip(0) =~= sv);
    }
    let mut acc = h;
    let mut i: usize = 0;
    while i < v.len()
        invariant
            i <= v.len(),
            sv == view_seq(v@),
            sv.len() == v@.len(),
            type_seq_sig(acc, sv.skip(i as int)) == type_seq_sig(h, sv),
        decreases v.len() - i,
    {
        proof {
            assert(sv[i as int] == v@[i as int]@);
            assert(sv.skip(i as int)[0] == sv[i as int]);
            assert(sv.skip(i as int).drop_first() =~= sv.skip(i as int + 1));
        }
        acc = type_sig(acc, &v[i]);
        i += 1;
    }
    proof {
        assert(sv.skip(i as int).len() == 0);
    }
    acc
}

fn type_opt_vec_sig(h: u64, o: &Option<Vec<Type>>) -> (r: u64)
    ensures
        r == type_opt_seq_sig(h, view_opt_seq(*o)),
{
    match o {
        None => sig_word_exec(h, 0),
        Some(v) => {
            let tagged = sig_word_exec(sig_word_exec(h, 1), v.len() as u64);
            proof {
                assert(view_seq(v@).len() == v@.len());
            }
            type_vec_sig(tagged, v)
        },
    }
}

/// Fold the wire-relevant content of a ref into a running signature.
pub open spec fn ref_content_sig(h: u64, v: RefV) -> u64 {
    let h0 = sig_chars(h, v.name);
    let h1 = sig_chars(h0, v.ref_type);
    let h2 = sig_opt_presence(h1, v.presence);
    let h3 = sig_opt_chars(h2, v.value_ref);
    h3
}

fn ref_sig(h: u64, x: &Ref) -> (r: u64)
    ensures
        r == ref_content_sig(h, x@),
{
    let h0 = sig_string(h, &x.name);
    let h1 = sig_string(h0, &x.ref_type);
    let h2 = sig_opt_presence_exec(h1, &x.presence);
    let h3 = sig_opt_string(h2, &x.value_ref);
    h3
}

/// Fold the contents of a sequence of refs into a running signature.
pub open spec fn ref_seq_sig(h: u64, s: Seq<RefV>) -> u64
    decreases s.len(),
{
    if s.len() == 0 {
        h
    } else {
        ref_seq_sig(ref_content_sig(h, s[0]), s.drop_first())
    }
}

/// Fold an optional sequence of refs into a running signature.
pub open spec fn ref_opt_seq_sig(h: u64, o: Option<Seq<RefV>>) -> u64 {
    match o {
        None => sig_word(h, 0),
        Some(s) => ref_seq_sig(sig_word(sig_word(h, 1), s.len() as u64), s),
    }
}

fn ref_vec_sig(h: u64, v: &Vec<Ref>) -> (r: u64)
    ensures
        r == ref_seq_sig(h, view_seq(v@)),
{
    let ghost sv = view_seq(v@);
    proof {
        assert(sv.skip(0) =~= sv);
    }
    let mut acc = h;
    let mut i: usize = 0;
    while i < v.len()
        invariant
            i <= v.len(),
            sv == view_seq(v@),
            sv.len() == v@.len(),
            ref_seq_sig(acc, sv.skip(i as int)) == ref_seq_sig(h, sv),
        decreases v.len() - i,
    {
        proof {
            assert(sv[i as int] == v@[i as int]@);
            assert(sv.skip(i as int)[0] == sv[i as int]);
            assert(sv.skip(i as int).drop_first() =~= sv.skip(i as int + 1));
        }
        acc = ref_sig(acc, &v[i]);
        i += 1;
    }
    proof {
        assert(sv.skip(i as int).len() == 0);
    }
    acc
}

fn ref_opt_vec_sig(h: u64, o: &Option<Vec<Ref>>) -> (r: u64)
    ensures
        r == ref_opt_seq_sig(h, view_opt_seq(*o)),
{
    match o {
        None => sig_word_exec(h, 0),
        Some(v) => {
            let tagged = sig_word_exec(sig_word_exec(h, 1), v.len() as u64);
            proof {
                assert(view_seq(v@).len() == v@.len());
            }
            ref_vec_sig(tagged, v)
        },
    }
}

/// Fold the wire-relevant content of a field into a running signature.
pub open spec fn field_content_sig(h: u64, v: FieldV) -> u64 {
    let h0 = sig_word(h, v.id as u64);
    let h1 = sig_chars(h0, v.field_type);
    let h2 = sig_opt_u32(h1, v.since_version);
    let h3 = sig_opt_presence(h2, v.presence);
    h3
}

fn field_sig(h: u64, x: &Field) -> (r: u64)
    ensures
        r == field_content_sig(h, x@),
{
    let h0 = sig_word_exec(h, x.id as u64);
    let h1 = sig_string(h0, &x.field_type);
    let h2 = sig_opt_u32_exec(h1, &x.since_version);
    let h3 = sig_opt_presence_exec(h2, &x.presence);
    h3
}

/// Fold the contents of a sequence of fields into a running signature.
pub open spec fn field_seq_sig(h: u64, s: Seq<FieldV>) -> u64
    decreases s.len(),
{
    if s.len() == 0 {
        h
    } else {
        field_seq_sig(field_content_sig(h, s[0]), s.drop_first())
    }
}

/// Fold an optional sequence of fields into a running signature.
pub open spec fn field_opt_seq_sig(h: u64, o: Option<Seq<FieldV>>) -> u64 {
    match o {
        None => sig_word(h, 0),
        Some(s) => field_seq_sig(sig_word(sig_word(h, 1), s.len() as u64), s),
    }
}

fn field_vec_sig(h: u64, v: &Vec<Field>) -> (r: u64)
    ensures
        r == field_seq_sig(h, view_seq(v@)),
{
    let ghost sv = view_seq(v@);
    proof {
        assert(sv.skip(0) =~= sv);
    }
    let mut acc = h;
    let mut i: usize = 0;
    while i < v.len()
        invariant
            i <= v.len(),
            sv == view_seq(v@),
            sv.len() == v@.len(),
            field_seq_sig(acc, sv.skip(i as int)) == field_seq_sig(h, sv),
        decreases v.len() - i,
    {
        proof {
            assert(sv[i as int] == v@[i as int]@);
            assert(sv.skip(i as int)[0] == sv[i as int]);
            assert(sv.skip(i as int).drop_first() =~= sv.skip(i as int + 1));
        }
        acc = field_sig(acc, &v[i]);
        i += 1;
    }
    proof {
        assert(sv.skip(i as int).len() == 0);
    }
    acc
}

fn field_opt_vec_sig(h: u64, o: &Option<Vec<Field>>) -> (r: u64)
    ensures
        r == field_opt_seq_sig(h, view_opt_seq(*o)),
{
    match o {
        None => sig_word_exec(h, 0),
        Some(v) => {
            let tagged = sig_word_exec(sig_word_exec(h, 1), v.len() as u64);
            proof {
                assert(view_seq(v@).len() == v@.len());
            }
            field_vec_sig(tagged, v)
        },
    }
}

/// Fold the wire-relevant content of a data element into a running signature.
pub open spec fn data_content_sig(h: u64, v: DataV) -> u64 {
    let h0 = sig_word(h, v.id as u64);
    let h1 = sig_chars(h0, v.data_type);
    let h2 = sig_opt_u32(h1, v.since_version);
    h2
}

fn data_sig(h: u64, x: &Data) -> (r: u64)
    ensures
        r == data_content_sig(h, x@),
{
    let h0 = sig_word_exec(h, x.id as u64);
    let h1 = sig_string(h0, &x.data_type);
    let h2 = sig_opt_u32_exec(h1, &x.since_version);
    h2
}

/// Fold the contents of a sequence of data elements into a running signature.
pub open spec fn data_seq_sig(h: u64, s: Seq<DataV>) -> u64
    decreases s.len(),
{
    if s.len() == 0 {
        h
    } else {
        data_seq_sig(data_content_sig(h, s[0]), s.drop_first())
    }
}

/// Fold an optional sequence of data elements into a running signature.
pub open spec fn data_opt_seq_sig(h: u64, o: Option<Seq<DataV>>) -> u64 {
    match o {
        None => sig_word(h, 0),
        Some(s) => data_seq_sig(sig_word(sig_word(h, 1), s.len() as u64), s),
    }
}

fn data_vec_sig(h: u64, v: &Vec<Data>) -> (r: u64)
    ensures
        r == data_seq_sig(h, view_seq(v@)),
{
    let ghost sv = view_seq(v@);
    proof {
        assert(sv.skip(0) =~= sv);
    }
    let mut acc = h;
    let mut i: usize = 0;
    while i < v.len()
        invariant
            i <= v.len(),
            sv == view_seq(v@),
            sv.len() == v@.len(),
            data_seq_sig(acc, sv.skip(i as int)) == data_seq_sig(h, sv),
        decreases v.len() - i,
    {
        proof {
            assert(sv[i as int] == v@[i as int]@);
            assert(sv.skip(i as int)[0] == sv[i as int]);
            assert(sv.skip(i as int).drop_first() =~= sv.skip(i as int + 1));
        }
        acc = data_sig(acc, &v[i]);
        i += 1;
    }
    proof {
        assert(sv.skip(i as int).len() == 0);
    }
    acc
}

fn data_opt_vec_sig(h: u64, o: &Option<Vec<Data>>) -> (r: u64)
    ensures
        r == data_opt_seq_sig(h, view_opt_seq(*o)),
{
    match o {
        None => sig_word_exec(h, 0),
        Some(v) => {
            let tagged = sig_word_exec(sig_word_exec(h, 1), v.len() as u64);
            proof {
                assert(view_seq(v@).len() == v@.len());
            }
            data_vec_sig(tagged, v)
        },
    }
}

/// Fold the wire-relevant content of a group into a running signature.
pub open spec fn group_content_sig(h: u64, v: GroupV) -> u64 {
    let h0 = sig_word(h, v.id as u64);
    let h1 = sig_chars(h0, v.dimension_type);
    let h2 = field_opt_seq_sig(h1, v.fields);
    let h3 = data_opt_seq_sig(h2, v.data);
    let h4 = sig_opt_u32(h3, v.since_version);
    h4
}

fn group_sig(h: u64, x: &Group) -> (r: u64)
    ensures
        r == group_content_sig(h, x@),
{
    let h0 = sig_word_exec(h, x.id as u64);
    let h1 = sig_string(h0, &x.dimension_type);
    let h2 = field_opt_vec_sig(h1, &x.fields);
    let h3 = data_opt_vec_sig(h2, &x.data);
    let h4 = sig_opt_u32_exec(h3, &x.since_version);
    h4
}

/// Fold the contents of a sequence of groups into a running signature.
pub open spec fn group_seq_sig(h: u64, s: Seq<GroupV>) -> u64
    decreases s.len(),
{
    if s.len() == 0 {
        h
    } else {
        group_seq_sig(group_content_sig(h, s[0]), s.drop_first())
    }
}

/// Fold an optional sequence of groups into a running signature.
pub open spec fn group_opt_seq_sig(h: u64, o: Option<Seq<GroupV>>) -> u64 {
    match o {
        None => sig_word(h, 0),
        Some(s) => group_seq_sig(sig_word(sig_word(h, 1), s.len() as u64), s),
    }
}

fn group_vec_sig(h: u64, v: &Vec<Group>) -> (r: u64)
    ensures
        r == group_seq_sig(h, view_seq(v@)),
{
    let ghost sv = view_seq(v@);
    proof {
        assert(sv.skip(0) =~= sv);
    }
    let mut acc = h;
    let mut i: usize = 0;
    while i < v.len()
        invariant
            i <= v.len(),
            sv == view_seq(v@),
            sv.len() == v@.len(),
            group_seq_sig(acc, sv.skip(i as int)) == group_seq_sig(h, sv),
        decreases v.len() - i,
    {
        proof {
            assert(sv[i as int] == v@[i as int]@);
            assert(sv.skip(i as int)[0] == sv[i as int]);
            assert(sv.skip(i as int).drop_first() =~= sv.skip(i as int + 1));
        }
        acc = group_sig(acc, &v[i]);
        i += 1;
    }
    proof {
        assert(sv.skip(i as int).len() == 0);
    }
    acc
}

fn group_opt_vec_sig(h: u64, o: &Option<Vec<Group>>) -> (r: u64)
    ensures
        r == group_opt_seq_sig(h, view_opt_seq(*o)),
{
    match o {
        None => sig_word_exec(h, 0),
        Some(v) => {
            let tagged = sig_word_exec(sig_word_exec(h, 1), v.len() as u64);
            proof {
                assert(view_seq(v@).len() == v@.len());
            }
            group_vec_sig(tagged, v)
        },
    }
}

/// Fold the wire-relevant content of a enum into a running signature.
pub open spec fn enum_type_content_sig(h: u64, v: EnumTypeV) -> u64 {
    let h0 = sig_chars(h, v.name);
    let h1 = sig_opt_primitive(h0, v.encoding_type);
    let h2 = valid_value_opt_seq_sig(h1, v.valid_values);
    h2
}

fn enum_type_sig(h: u64, x: &EnumType) -> (r: u64)
    ensures
        r == enum_type_content_sig(h, x@),
{
    let h0 = sig_string(h, &x.name);
    let h1 = sig_opt_primitive_exec(h0, &x.encoding_type);
    let h2 = valid_value_opt_vec_sig(h1, &x.valid_values);
    h2
}

/// Fold the contents of a sequence of enums into a running signature.
pub open spec fn enum_type_seq_sig(h: u64, s: Seq<EnumTypeV>) -> u64
    decreases s.len(),
{
    if s.len() == 0 {
        h
    } else {
        enum_type_seq_sig(enum_type_content_sig(h, s[0]), s.drop_first())
    }
}

/// Fold an optional sequence of enums into a running signature.
pub open spec fn enum_type_opt_seq_sig(h: u64, o: Option<Seq<EnumTypeV>>) -> u64 {
    match o {
        None => sig_word(h, 0),
        Some(s) => enum_type_seq_sig(sig_word(sig_word(h, 1), s.len() as u64), s),
    }
}

fn enum_type_vec_sig(h: u64, v: &Vec<EnumType>) -> (r: u64)
    ensures
        r == enum_type_seq_sig(h, view_seq(v@)),
{
    let ghost sv = view_seq(v@);
    proof {
        assert(sv.skip(0) =~= sv);
    }
    let mut acc = h;
    let mut i: usize = 0;
    while i < v.len()
        invariant
            i <= v.len(),
            sv == view_seq(v@),
            sv.len() == v@.len(),
            enum_type_seq_sig(acc, sv.skip(i as int)) == enum_type_seq_sig(h, sv),
        decreases v.len() - i,
    {
        proof {
            assert(sv[i as int] == v@[i as int]@);
            assert(sv.skip(i as int)[0] == sv[i as int]);
            assert(sv.skip(i as int).drop_first() =~= sv.skip(i as int + 1));
        }
        acc = enum_type_sig(acc, &v[i]);
        i += 1;
    }
    proof {
        assert(sv.skip(i as int).len() == 0);
    }
    acc
}

fn enum_type_opt_vec_sig(h: u64, o: &Option<Vec<EnumType>>) -> (r: u64)
    ensures
        r == enum_type_opt_seq_sig(h, view_opt_seq(*o)),
{
    match o {
        None => sig_word_exec(h, 0),
        Some(v) => {
            let tagged = sig_word_exec(sig_word_exec(h, 1), v.len() as u64);
            proof {
                assert(view_seq(v@).len() == v@.len());
            }
            enum_type_vec_sig(tagged, v)
        },
    }
}

/// Fold the wire-relevant content of a set into a running signature.
pub open spec fn set_type_content_sig(h: u64, v: SetTypeV) -> u64 {
    let h0 = sig_chars(h, v.name);
    let h1 = sig_opt_primitive(h0, v.encoding_type);
    let h2 = choice_opt_seq_sig(h1, v.choices);
    h2
}

fn set_type_sig(h: u64, x: &SetType) -> (r: u64)
    ensures
        r == set_type_content_sig(h, x@),
{
    let h0 = sig_string(h, &x.name);
    let h1 = sig_opt_primitive_exec(h0, &x.encoding_type);
    let h2 = choice_opt_vec_sig(h1, &x.choices);
    h2
}

/// Fold the contents of a sequence of sets into a running signature.
pub open spec fn set_type_seq_sig(h: u64, s: Seq<SetTypeV>) -> u64
    decreases s.len(),
{
    if s.len() == 0 {
        h
    } else {
        set_type_seq_sig(set_type_content_sig(h, s[0]), s.drop_first())
    }
}

/// Fold an optional sequence of sets into a running signature.
pub open spec fn set_type_opt_seq_sig(h: u64, o: Option<Seq<SetTypeV>>) -> u64 {
    match o {
        None => sig_word(h, 0),
        Some(s) => set_type_seq_sig(sig_word(sig_word(h, 1), s.len() as u64), s),
    }
}

fn set_type_vec_sig(h: u64, v: &Vec<SetType>) -> (r: u64)
    ensures
        r == set_type_seq_sig(h, view_seq(v@)),
{
    let ghost sv = view_seq(v@);
    proof {
        assert(sv.skip(0) =~= sv);
    }
    let mut acc = h;
    let mut i: usize = 0;
    while i < v.len()
        invariant
            i <= v.len(),
            sv == view_seq(v@),
            sv.len() == v@.len(),
            set_type_seq_sig(acc, sv.skip(i as int)) == set_type_seq_sig(h, sv),
        decreases v.len() - i,
    {
        proof {
            assert(sv[i as int] == v@[i as int]@);
            assert(sv.skip(i as int)[0] == sv[i as int]);
            assert(sv.skip(i as int).drop_first() =~= sv.skip(i as int + 1));
        }
        acc = set_type_sig(acc, &v[i]);
        i += 1;
    }
    proof {
        assert(sv.skip(i as int).len() == 0);
    }
    acc
}

fn set_type_opt_vec_sig(h: u64, o: &Option<Vec<SetType>>) -> (r: u64)
    ensures
        r == set_type_opt_seq_sig(h, view_opt_seq(*o)),
{
    match o {
        None => sig_word_exec(h, 0),
        Some(v) => {
            let tagged = sig_word_exec(sig_word_exec(h, 1), v.len() as u64);
            proof {
                assert(view_seq(v@).len() == v@.len());
            }
            set_type_vec_sig(tagged, v)
        },
    }
}

/// Fold the wire-relevant content of a composite into a running signature.
pub open spec fn composite_content_sig(h: u64, v: CompositeV) -> u64 {
    let h0 = sig_chars(h, v.name);
    let h1 = type_opt_seq_sig(h0, v.types);
    let h2 = ref_opt_seq_sig(h1, v.refs);
    h2
}

fn composite_sig(h: u64, x: &Composite) -> (r: u64)
    ensures
        r == composite_content_sig(h, x@),
{
    let h0 = sig_string(h, &x.name);
    let h1 = type_opt_vec_sig(h0, &x.types);
    let h2 = ref_opt_vec_sig(h1, &x.refs);
    h2
}

/// Fold the contents of a sequence of composites into a running signature.
pub open spec fn composite_seq_sig(h: u64, s: Seq<CompositeV>) -> u64
    decreases s.len(),
{
    if s.len() == 0 {
        h
    } else {
        composite_seq_sig(composite_content_sig(h, s[0]), s.drop_first())
    }
}

/// Fold an optional sequence of composites into a running signature.
pub open spec fn composite_opt_seq_sig(h: u64, o: Option<Seq<CompositeV>>) -> u64 {
    match o {
        None => sig_word(h, 0),
        Some(s) => composite_seq_sig(sig_word(sig_word(h, 1), s.len() as u64), s),
    }
}

fn composite_vec_sig(h: u64, v: &Vec<Composite>) -> (r: u64)
    ensures
        r == composite_seq_sig(h, view_seq(v@)),
{
    let ghost sv = view_seq(v@);
    proof {
        assert(sv.skip(0) =~= sv);
    }
    let mut acc = h;
    let mut i: usize = 0;
    while i < v.len()
        invariant
            i <= v.len(),
            sv == view_seq(v@),
            sv.len() == v@.len(),
            composite_seq_sig(acc, sv.skip(i as int)) == composite_seq_sig(h, sv),
        decreases v.len() - i,
    {
        proof {
            assert(sv[i as int] == v@[i as int]@);
            assert(sv.skip(i as int)[0] == sv[i as int]);
            assert(sv.skip(i as int).drop_first() =~= sv.skip(i as int + 1));
        }
        acc = composite_sig(acc, &v[i]);
        i += 1;
    }
    proof {
        assert(sv.skip(i as int).len() == 0);
    }
    acc
}

fn composite_opt_vec_sig(h: u64, o: &Option<Vec<Composite>>) -> (r: u64)
    ensures
        r == composite_opt_seq_sig(h, view_opt_seq(*o)),
{
    match o {
        None => sig_word_exec(h, 0),
        Some(v) => {
            let tagged = sig_word_exec(sig_word_exec(h, 1), v.len() as u64);
            proof {
                assert(view_seq(v@).len() == v@.len());
            }
            composite_vec_sig(tagged, v)
        },
    }
}

/// Fold the wire-relevant content of a message into a running signature.
pub open spec fn message_content_sig(h: u64, v: MessageV) -> u64 {
    let h0 = sig_word(h, v.id as u64);
    let h1 = field_opt_seq_sig(h0, v.fields);
    let h2 = group_opt_seq_sig(h1, v.groups);
    let h3 = sig_opt_chars(h2, v.semantic_type);
    h3
}

fn message_sig(h: u64, x: &Message) -> (r: u64)
    ensures
        r == message_content_sig(h, x@),
{
    let h0 = sig_word_exec(h, x.id as u64);
    let h1 = field_opt_vec_sig(h0, &x.fields);
    let h2 = group_opt_vec_sig(h1, &x.groups);
    let h3 = sig_opt_string(h2, &x.semantic_type);
    h3
}

/// Fold the contents of a sequence of messages into a running signature.
pub open spec fn message_seq_sig(h: u64, s: Seq<MessageV>) -> u64
    decreases s.len(),
{
    if s.len() == 0 {
        h
    } else {
        message_seq_sig(message_content_sig(h, s[0]), s.drop_first())
    }
}

/// Fold an optional sequence of messages into a running signature.
pub open spec fn message_opt_seq_sig(h: u64, o: Option<Seq<MessageV>>) -> u64 {
    match o {
        None => sig_word(h, 0),
        Some(s) => message_seq_sig(sig_word(sig_word(h, 1), s.len() as u64), s),
    }
}

fn message_vec_sig(h: u64, v: &Vec<Message>) -> (r: u64)
    ensures
        r == message_seq_sig(h, view_seq(v@)),
{
    let ghost sv = view_seq(v@);
    proof {
        assert(sv.skip(0) =~= sv);
    }
    let mut acc = h;
    let mut i: usize = 0;
    while i < v.len()
        invariant
            i <= v.len(),
            sv == view_seq(v@),
            sv.len() == v@.len(),
            message_seq_sig(acc, sv.skip(i as int)) == message_seq_sig(h, sv),
        decreases v.len() - i,
    {
        proof {
            assert(sv[i as int] == v@[i as int]@);
            assert(sv.skip(i as int)[0] == sv[i as int]);
            assert(sv.skip(i as int).drop_first() =~= sv.skip(i as int + 1));
        }
        acc = message_sig(acc, &v[i]);
        i += 1;
    }
    proof {
        assert(sv.skip(i as int).len() == 0);
    }
    acc
}

fn message_opt_vec_sig(h: u64, o: &Option<Vec<Message>>) -> (r: u64)
    ensures
        r == message_opt_seq_sig(h, view_opt_seq(*o)),
{
    match o {
        None => sig_word_exec(h, 0),
        Some(v) => {
            let tagged = sig_word_exec(sig_word_exec(h, 1), v.len() as u64);
            proof {
                assert(view_seq(v@).len() == v@.len());
            }
            message_vec_sig(tagged, v)
        },
    }
}

/// Fold the wire-relevant content of a types block into a running signature.
pub open spec fn types_block_content_sig(h: u64, v: TypesV) -> u64 {
    let h0 = composite_opt_seq_sig(h, v.composites);
    let h1 = enum_type_opt_seq_sig(h0, v.enums);
    let h2 = set_type_opt_seq_sig(h1, v.sets);
    h2
}

fn types_block_sig(h: u64, x: &Types) -> (r: u64)
    ensures
        r == types_block_content_sig(h, x@),
{
    let h0 = composite_opt_vec_sig(h, &x.composites);
    let h1 = enum_type_opt_vec_sig(h0, &x.enums);
    let h2 = set_type_opt_vec_sig(h1, &x.sets);
    h2
}

/// Fold the contents of a sequence of types blocks into a running signature.
pub open spec fn types_block_seq_sig(h: u64, s: Seq<TypesV>) -> u64
    decreases s.len(),
{
    if s.len() == 0 {
        h
    } else {
        types_block_seq_sig(types_block_content_sig(h, s[0]), s.drop_first())
    }
}

/// Fold an optional sequence of types blocks into a running signature.
pub open spec fn types_block_opt_seq_sig(h: u64, o: Option<Seq<TypesV>>) -> u64 {
    match o {
        None => sig_word(h, 0),
        Some(s) => types_block_seq_sig(sig_word(sig_word(h, 1), s.len() as u64), s),
    }
}

fn types_block_vec_sig(h: u64, v: &Vec<Types>) -> (r: u64)
    ensures
        r == types_block_seq_sig(h, view_seq(v@)),
{
    let ghost sv = view_seq(v@);
    proof {
        assert(sv.skip(0) =~= sv);
    }
    let mut acc = h;
    let mut i: usize = 0;
    while i < v.len()
        invariant
            i <= v.len(),
            sv == view_seq(v@),
            sv.len() == v@.len(),
            types_block_seq_sig(acc, sv.skip(i as int)) == types_block_seq_sig(h, sv),
        decreases v.len() - i,
    {
        proof {
            assert(sv[i as int] == v@[i as int]@);
            assert(sv.skip(i as int)[0] == sv[i as int]);
            assert(sv.skip(i as int).drop_first() =~= sv.skip(i as int + 1));
        }
        acc = types_block_sig(acc, &v[i]);
        i += 1;
    }
    proof {
        assert(sv.skip(i as int).len() == 0);
    }
    acc
}

fn types_block_opt_vec_sig(h: u64, o: &Option<Vec<Types>>) -> (r: u64)
    ensures
        r == types_block_opt_seq_sig(h, view_opt_seq(*o)),
{
    match o {
        None => sig_word_exec(h, 0),
        Some(v) => {
            let tagged = sig_word_exec(sig_word_exec(h, 1), v.len() as u64);
            proof {
                assert(view_seq(v@).len() == v@.len());
            }
            types_block_vec_sig(tagged, v)
        },
    }
}

/// Fold the wire-relevant content of a schema into a running signature.
pub open spec fn schema_content_sig(h: u64, v: SchemaV) -> u64 {
    let h0 = sig_chars(h, v.package);
    let h1 = sig_word(h0, v.id as u64);
    let h2 = sig_opt_u32(h1, v.version);
    let h3 = semantic_version_content_sig(h2, v.semantic_version);
    let h4 = sig_opt_byte_order(h3, v.byte_order);
    let h5 = types_block_opt_seq_sig(h4, v.types);
    let h6 = message_opt_seq_sig(h5, v.messages);
    h6
}

fn schema_sig(h: u64, x: &Schema) -> (r: u64)
    ensures
        r == schema_content_sig(h, x@),
{
    let h0 = sig_string(h, &x.package);
    let h1 = sig_word_exec(h0, x.id as u64);
    let h2 = sig_opt_u32_exec(h1, &x.version);
    let h3 = semantic_version_sig(h2, &x.semantic_version);
    let h4 = sig_opt_byte_order_exec(h3, &x.byte_order);
    let h5 = types_block_opt_vec_sig(h4, &x.types);
    let h6 = message_opt_vec_sig(h5, &x.messages);
    h6
}

/// Each model type exposes its stable content signature.
impl Schema {
    /// A stable signature of the schema's wire-relevant content.
    pub fn content_signature(&self) -> (r: u64)
        ensures
            r == schema_content_sig(SIGNATURE_BASIS, self@),
    {
        schema_sig(SIGNATURE_BASIS, self)
    }
}

/// Values with the same wire-relevant content carry the same signature: the
/// signature is a function of the view, which leaves out descriptions and
/// the names of id-keyed entities.
pub proof fn lemma_signature_respects_content(a: Schema, b: Schema)
    requires
        a@ == b@,
    ensures
        schema_content_sig(SIGNATURE_BASIS, a@) == schema_content_sig(SIGNATURE_BASIS, b@),
{
}

} // verus!

verus! {

impl Type {
    /// A stable signature of the wire-relevant content.
    pub fn content_signature(&self) -> (r: u64)
        ensures
            r == type_content_sig(SIGNATURE_BASIS, self@),
    {
        type_sig(SIGNATURE_BASIS, self)
    }
}

impl Ref {
    /// A stable signature of the wire-relevant content.
    pub fn content_signature(&self) -> (r: u64)
        ensures
            r == ref_content_sig(SIGNATURE_BASIS, self@),
    {
        ref_sig(SIGNATURE_BASIS, self)
    }
}

impl ValidValue {
    /// A stable signature of the wire-relevant content.
    pub fn content_signature(&self) -> (r: u64)
        ensures
            r == valid_value_content_sig(SIGNATURE_BASIS, self@),
    {
        valid_value_sig(SIGNATURE_BASIS, self)
    }
}

impl Choice {
    /// A stable signature of the wire-relevant content.
    pub fn content_signature(&self) -> (r: u64)
        ensures
            r == choice_content_sig(SIGNATURE_BASIS, self@),
    {
        choice_sig(SIGNATURE_BASIS, self)
    }
}

impl EnumType {
    /// A stable signature of the wire-relevant content.
    pub fn content_signature(&self) -> (r: u64)
        ensures
            r == enum_type_content_sig(SIGNATURE_BASIS, self@),
    {
        enum_type_sig(SIGNATURE_BASIS, self)
    }
}

impl SetType {
    /// A stable signature of the wire-relevant content.
    pub fn content_signature(&self) -> (r: u64)
        ensures
            r == set_type_content_sig(SIGNATURE_BASIS, self@),
    {
        set_type_sig(SIGNATURE_BASIS, self)
    }
}

impl Composite {
    /// A stable signature of the wire-relevant content.
    pub fn content_signature(&self) -> (r: u64)
        ensures
            r == composite_content_sig(SIGNATURE_BASIS, self@),
    {
        composite_sig(SIGNATURE_BASIS, self)
    }
}

impl Field {
    /// A stable signature of the wire-relevant content.
    pub fn content_signature(&self) -> (r: u64)
        ensures
            r == field_content_sig(SIGNATURE_BASIS, self@),
    {
        field_sig(SIGNATURE_BASIS, self)
    }
}

impl Data {
    /// A stable signature of the wire-relevant content.
    pub fn content_signature(&self) -> (r: u64)
        ensures
            r == data_content_sig(SIGNATURE_BASIS, self@),
    {
        data_sig(SIGNATURE_BASIS, self)
    }
}

impl Group {
    /// A stable signature of the wire-relevant content.
    pub fn content_signature(&self) -> (r: u64)
        ensures
            r == group_content_sig(SIGNATURE_BASIS, self@),
    {
        group_sig(SIGNATURE_BASIS, self)
    }
}

impl Message {
    /// A stable signature of the wire-relevant content.
    pub fn content_signature(&self) -> (r: u64)
        ensures
            r == message_content_sig(SIGNATURE_BASIS, self@),
    {
        message_sig(SIGNATURE_BASIS, self)
    }
}

impl Types {
    /// A stable signature of the wire-relevant content.
    pub fn content_signature(&self) -> (r: u64)
        ensures
            r == types_block_content_sig(SIGNATURE_BASIS, self@),
    {
        types_block_sig(SIGNATURE_BASIS, self)
    }
}

} // verus!
