//! The schema model: typed value objects for every SBE construct.
//!
//! Each executable model type carries a *view*: a mathematical value holding
//! exactly the attributes that affect wire interpretation. Free-form
//! `description` attributes, and the human-readable `name` on entities keyed
//! by a stable `id` (messages, fields, groups, data), are left out of the
//! view. Structural equality of two model values is equality of their views,
//! decided executably by [`ViewEq::view_eq`].

use vstd::prelude::*;

verus! {

/// The primitive wire types an SBE encoding can use.
#[derive(Debug, Clone, Copy, PartialEq, Eq, Structural, Hash)]
pub enum PrimitiveType {
    Uint8,
    Int8,
    Uint16,
    Int16,
    Uint32,
    Int32,
    Uint64,
    Int64,
    Char,
    Float,
    Double,
}

/// Per-field optionality.
#[derive(Debug, Clone, Copy, PartialEq, Eq, Structural, Hash)]
pub enum Presence {
    /// The field has a constant value that need not be transmitted on the
    /// wire. Mutually exclusive with nullValue, minValue, and maxValue.
    Constant,
    /// The field must always be set. This is the default presence.
    /// Mutually exclusive with nullValue.
    Required,
    /// The field need not be populated. A special null value indicates that
    /// a field is not set.
    Optional,
}

/// The byte order of the encoded bytes.
#[derive(Debug, Clone, Copy, PartialEq, Eq, Structural, Hash)]
pub enum ByteOrder {
    LittleEndian,
    BigEndian,
}

/// The view of an `Option` of viewable values.
pub open spec fn view_opt<T: View>(o: Option<T>) -> Option<T::V> {
    match o {
        Some(t) => Some(t@),
        None => None,
    }
}

/// The views of a sequence of viewable values, element by element.
pub open spec fn view_seq<T: View>(s: Seq<T>) -> Seq<T::V> {
    s.map_values(|t: T| t@)
}

/// The views of an optional sequence of viewable values.
pub open spec fn view_opt_seq<T: View>(o: Option<Vec<T>>) -> Option<Seq<T::V>> {
    match o {
        Some(v) => Some(view_seq(v@)),
        None => None,
    }
}

/// Structural equality, decided on the view: two model values are equal
/// exactly when their wire-relevant content is.
pub trait ViewEq: View + Sized {
    /// Compare the wire-relevant content of two values.
    fn view_eq(&self, other: &Self) -> (r: bool)
        ensures
            r == (self@ == other@),
    ;
}

/// Compare two optional strings by content.
pub fn opt_string_eq(a: &Option<String>, b: &Option<String>) -> (r: bool)
    ensures
        r == (view_opt(*a) == view_opt(*b)),
{
    match (a, b) {
        (Some(x), Some(y)) => *x == *y,
        (None, None) => true,
        _ => false,
    }
}

/// Compare two optional `u32` values.
pub fn opt_u32_eq(a: &Option<u32>, b: &Option<u32>) -> (r: bool)
    ensures
        r == (*a == *b),
{
    match (a, b) {
        (Some(x), Some(y)) => x == y,
        (None, None) => true,
        _ => false,
    }
}

/// Compare two optional presence attributes.
pub fn opt_presence_eq(a: &Option<Presence>, b: &Option<Presence>) -> (r: bool)
    ensures
        r == (*a == *b),
{
    match (a, b) {
        (Some(x), Some(y)) => x == y,
        (None, None) => true,
        _ => false,
    }
}

/// Compare two optional primitive types.
pub fn opt_primitive_eq(a: &Option<PrimitiveType>, b: &Option<PrimitiveType>) -> (r: bool)
    ensures
        r == (*a == *b),
{
    match (a, b) {
        (Some(x), Some(y)) => x == y,
        (None, None) => true,
        _ => false,
    }
}

/// Compare two optional byte orders.
pub fn opt_byte_order_eq(a: &Option<ByteOrder>, b: &Option<ByteOrder>) -> (r: bool)
    ensures
        r == (*a == *b),
{
    match (a, b) {
        (Some(x), Some(y)) => x == y,
        (None, None) => true,
        _ => false,
    }
}

/// Compare two vectors of model values element by element on their views.
pub fn vec_view_eq<T: ViewEq>(a: &Vec<T>, b: &Vec<T>) -> (r: bool)
    ensures
        r == (view_seq(a@) == view_seq(b@)),
{
    proof {
        assert(view_seq(a@).len() == a@.len());
        assert(view_seq(b@).len() == b@.len());
    }
    if a.len() != b.len() {
        return false;
    }
    let mut i: usize = 0;
    while i < a.len()
        invariant
            i <= a.len(),
            a@.len() == b@.len(),
            forall|j: int| 0 <= j < i ==> view_seq(a@)[j] == view_seq(b@)[j],
        decreases a.len() - i,
    {
        if !a[i].view_eq(&b[i]) {
            proof {
                assert(view_seq(a@)[i as int] == a@[i as int]@);
                assert(view_seq(b@)[i as int] == b@[i as int]@);
            }
            return false;
        }
        proof {
            assert(view_seq(a@)[i as int] == a@[i as int]@);
            assert(view_seq(b@)[i as int] == b@[i as int]@);
        }
        i += 1;
    }
    proof {
        assert(view_seq(a@) =~= view_seq(b@));
    }
    true
}

/// Compare two optional vectors of model values on their views.
pub fn opt_vec_view_eq<T: ViewEq>(a: &Option<Vec<T>>, b: &Option<Vec<T>>) -> (r: bool)
    ensures
        r == (view_opt_seq(*a) == view_opt_seq(*b)),
{
    match (a, b) {
        (Some(x), Some(y)) => vec_view_eq(x, y),
        (None, None) => true,
        _ => false,
    }
}

/// Whether a sequence of model values holds one with the given view.
pub fn vec_view_contains<T: ViewEq>(v: &Vec<T>, x: &T) -> (r: bool)
    ensures
        r == view_seq(v@).contains(x@),
{
    let mut i: usize = 0;
    while i < v.len()
        invariant
            i <= v.len(),
            forall|j: int| 0 <= j < i ==> view_seq(v@)[j] != x@,
        decreases v.len() - i,
    {
        if v[i].view_eq(x) {
            proof {
                assert(view_seq(v@)[i as int] == v@[i as int]@);
            }
            return true;
        }
        proof {
            assert(view_seq(v@)[i as int] == v@[i as int]@);
        }
        i += 1;
    }
    proof {
        assert(forall|j: int| 0 <= j < view_seq(v@).len() ==> view_seq(v@)[j] != x@);
    }
    false
}

/// The wire-relevant content of a [`Type`].
#[verifier::ext_equal]
pub struct TypeV {
    pub name: Seq<char>,
    pub primitive_type: Option<PrimitiveType>,
    pub length: Option<u32>,
    pub max_value: Option<Seq<char>>,
    pub min_value: Option<Seq<char>>,
    pub null_value: Option<Seq<char>>,
    pub character_encoding: Option<Seq<char>>,
    pub presence: Option<Presence>,
    pub since_version: Option<u32>,
    pub value: Option<Seq<char>>,
}

/// A primitive type declaration inside a composite or types block.
#[derive(Clone)]
pub struct Type {
    pub name: String,
    pub description: Option<String>,
    pub primitive_type: Option<PrimitiveType>,
    pub length: Option<u32>,
    pub max_value: Option<String>,
    pub min_value: Option<String>,
    /// A special value that indicates that an optional value is not set.
    /// Mutually exclusive with presence=required and constant.
    pub null_value: Option<String>,
    pub character_encoding: Option<String>,
    pub presence: Option<Presence>,
    pub since_version: Option<u32>,
    pub value: Option<String>,
}

impl View for Type {
    type V = TypeV;

    open spec fn view(&self) -> TypeV {
        TypeV {
            name: self.name@,
            primitive_type: self.primitive_type,
            length: self.length,
            max_value: view_opt(self.max_value),
            min_value: view_opt(self.min_value),
            null_value: view_opt(self.null_value),
            character_encoding: view_opt(self.character_encoding),
            presence: self.presence,
            since_version: self.since_version,
            value: view_opt(self.value),
        }
    }
}

impl ViewEq for Type {
    fn view_eq(&self, other: &Self) -> (r: bool) {
        let r = self.name == other.name && opt_primitive_eq(&self.primitive_type, &other.primitive_type)
            && opt_u32_eq(&self.length, &other.length)
            && opt_string_eq(&self.max_value, &other.max_value)
            && opt_string_eq(&self.min_value, &other.min_value)
            && opt_string_eq(&self.null_value, &other.null_value)
            && opt_string_eq(&self.character_encoding, &other.character_encoding)
            && opt_presence_eq(&self.presence, &other.presence)
            && opt_u32_eq(&self.since_version, &other.since_version)
            && opt_string_eq(&self.value, &other.value);
        proof {
            if r {
                assert(self@ =~= other@);
            }
        }
        r
    }
}

} // verus!

verus! {

/// The wire-relevant content of a [`Ref`].
#[verifier::ext_equal]
pub struct RefV {
    pub name: Seq<char>,
    pub ref_type: Seq<char>,
    pub presence: Option<Presence>,
    pub value_ref: Option<Seq<char>>,
}

/// A named reference from a composite to another declared type.
#[derive(Clone)]
pub struct Ref {
    pub name: String,
    pub description: Option<String>,
    pub ref_type: String,
    pub presence: Option<Presence>,
    pub value_ref: Option<String>,
}

impl View for Ref {
    type V = RefV;

    open spec fn view(&self) -> RefV {
        RefV {
            name: self.name@,
            ref_type: self.ref_type@,
            presence: self.presence,
            value_ref: view_opt(self.value_ref),
        }
    }
}

impl ViewEq for Ref {
    fn view_eq(&self, other: &Self) -> (r: bool) {
        let r = self.name == other.name && self.ref_type == other.ref_type
            && opt_presence_eq(&self.presence, &other.presence)
            && opt_string_eq(&self.value_ref, &other.value_ref);
        proof {
            if r {
                assert(self@ =~= other@);
            }
        }
        r
    }
}

/// The wire-relevant content of a [`ValidValue`].
#[verifier::ext_equal]
pub struct ValidValueV {
    pub name: Seq<char>,
    pub value: Seq<char>,
}

/// One named value of an enum type.
#[derive(Clone)]
pub struct ValidValue {
    pub name: String,
    pub description: Option<String>,
    pub value: String,
}

impl View for ValidValue {
    type V = ValidValueV;

    open spec fn view(&self) -> ValidValueV {
        ValidValueV { name: self.name@, value: self.value@ }
    }
}

impl ViewEq for ValidValue {
    fn view_eq(&self, other: &Self) -> (r: bool) {
        let r = self.name == other.name && self.value == other.value;
        proof {
            if r {
                assert(self@ =~= other@);
            }
        }
        r
    }
}

/// The wire-relevant content of a [`Choice`].
#[verifier::ext_equal]
pub struct ChoiceV {
    pub name: Seq<char>,
    pub value: Seq<char>,
}

/// One named bit position of a set type.
#[derive(Clone)]
pub struct Choice {
    pub name: String,
    pub description: Option<String>,
    pub value: String,
}

impl View for Choice {
    type V = ChoiceV;

    open spec fn view(&self) -> ChoiceV {
        ChoiceV { name: self.name@, value: self.value@ }
    }
}

impl ViewEq for Choice {
    fn view_eq(&self, other: &Self) -> (r: bool) {
        let r = self.name == other.name && self.value == other.value;
        proof {
            if r {
                assert(self@ =~= other@);
            }
        }
        r
    }
}

/// The wire-relevant content of an [`EnumType`].
#[verifier::ext_equal]
pub struct EnumTypeV {
    pub name: Seq<char>,
    pub encoding_type: Option<PrimitiveType>,
    pub valid_values: Option<Seq<ValidValueV>>,
}

/// An enum type declaration.
#[derive(Clone)]
pub struct EnumType {
    pub name: String,
    pub description: Option<String>,
    pub encoding_type: Option<PrimitiveType>,
    pub valid_values: Option<Vec<ValidValue>>,
}

impl View for EnumType {
    type V = EnumTypeV;

    open spec fn view(&self) -> EnumTypeV {
        EnumTypeV {
            name: self.name@,
            encoding_type: self.encoding_type,
            valid_values: view_opt_seq(self.valid_values),
        }
    }
}

impl ViewEq for EnumType {
    fn view_eq(&self, other: &Self) -> (r: bool) {
        let r = self.name == other.name && opt_primitive_eq(&self.encoding_type, &other.encoding_type)
            && opt_vec_view_eq(&self.valid_values, &other.valid_values);
        proof {
            if r {
                assert(self@ =~= other@);
            }
        }
        r
    }
}

/// The wire-relevant content of a [`SetType`].
#[verifier::ext_equal]
pub struct SetTypeV {
    pub name: Seq<char>,
    pub encoding_type: Option<PrimitiveType>,
    pub choices: Option<Seq<ChoiceV>>,
}

/// A multi-value choice (bit set) type declaration.
#[derive(Clone)]
pub struct SetType {
    pub name: String,
    pub description: Option<String>,
    pub encoding_type: Option<PrimitiveType>,
    pub choices: Option<Vec<Choice>>,
}

impl View for SetType {
    type V = SetTypeV;

    open spec fn view(&self) -> SetTypeV {
        SetTypeV {
            name: self.name@,
            encoding_type: self.encoding_type,
            choices: view_opt_seq(self.choices),
        }
    }
}

impl ViewEq for SetType {
    fn view_eq(&self, other: &Self) -> (r: bool) {
        let r = self.name == other.name && opt_primitive_eq(&self.encoding_type, &other.encoding_type)
            && opt_vec_view_eq(&self.choices, &other.choices);
        proof {
            if r {
                assert(self@ =~= other@);
            }
        }
        r
    }
}

/// The wire-relevant content of a [`Composite`].
#[verifier::ext_equal]
pub struct CompositeV {
    pub name: Seq<char>,
    pub types: Option<Seq<TypeV>>,
    pub refs: Option<Seq<RefV>>,
}

/// A named aggregate of types and refs: the SBE equivalent of a struct
/// definition.
#[derive(Clone)]
pub struct Composite {
    pub name: String,
    pub description: Option<String>,
    pub types: Option<Vec<Type>>,
    pub refs: Option<Vec<Ref>>,
}

impl View for Composite {
    type V = CompositeV;

    open spec fn view(&self) -> CompositeV {
        CompositeV {
            name: self.name@,
            types: view_opt_seq(self.types),
            refs: view_opt_seq(self.refs),
        }
    }
}

impl ViewEq for Composite {
    fn view_eq(&self, other: &Self) -> (r: bool) {
        let r = self.name == other.name && opt_vec_view_eq(&self.types, &other.types)
            && opt_vec_view_eq(&self.refs, &other.refs);
        proof {
            if r {
                assert(self@ =~= other@);
            }
        }
        r
    }
}

/// The wire-relevant content of a [`Field`]. The human-readable `name` is
/// not part of it: fields are keyed by their stable `id`.
#[verifier::ext_equal]
pub struct FieldV {
    pub id: u32,
    pub field_type: Seq<char>,
    pub since_version: Option<u32>,
    pub presence: Option<Presence>,
}

/// A fixed-length field of a message or group, typed by name.
#[derive(Clone)]
pub struct Field {
    pub name: String,
    pub description: Option<String>,
    pub id: u32,
    pub field_type: String,
    pub since_version: Option<u32>,
    pub presence: Option<Presence>,
}

impl View for Field {
    type V = FieldV;

    open spec fn view(&self) -> FieldV {
        FieldV {
            id: self.id,
            field_type: self.field_type@,
            since_version: self.since_version,
            presence: self.presence,
        }
    }
}

impl ViewEq for Field {
    fn view_eq(&self, other: &Self) -> (r: bool) {
        let r = self.id == other.id && self.field_type == other.field_type
            && opt_u32_eq(&self.since_version, &other.since_version)
            && opt_presence_eq(&self.presence, &other.presence);
        proof {
            if r {
                assert(self@ =~= other@);
            }
        }
        r
    }
}

/// The wire-relevant content of a [`Data`] element. The human-readable
/// `name` is not part of it: data elements are keyed by their stable `id`.
#[verifier::ext_equal]
pub struct DataV {
    pub id: u32,
    pub data_type: Seq<char>,
    pub since_version: Option<u32>,
}

/// A variable-length data element of a group, typed by name.
#[derive(Clone)]
pub struct Data {
    pub name: String,
    pub description: Option<String>,
    pub id: u32,
    pub data_type: String,
    pub since_version: Option<u32>,
}

impl View for Data {
    type V = DataV;

    open spec fn view(&self) -> DataV {
        DataV { id: self.id, data_type: self.data_type@, since_version: self.since_version }
    }
}

impl ViewEq for Data {
    fn view_eq(&self, other: &Self) -> (r: bool) {
        let r = self.id == other.id && self.data_type == other.data_type
            && opt_u32_eq(&self.since_version, &other.since_version);
        proof {
            if r {
                assert(self@ =~= other@);
            }
        }
        r
    }
}

/// The wire-relevant content of a [`Group`]. The human-readable `name` is
/// not part of it: groups are keyed by their stable `id`.
#[verifier::ext_equal]
pub struct GroupV {
    pub id: u32,
    pub dimension_type: Seq<char>,
    pub fields: Option<Seq<FieldV>>,
    pub data: Option<Seq<DataV>>,
    pub since_version: Option<u32>,
}

/// A repeating group of a message.
#[derive(Clone)]
pub struct Group {
    pub name: String,
    pub description: Option<String>,
    pub id: u32,
    pub dimension_type: String,
    pub fields: Option<Vec<Field>>,
    pub data: Option<Vec<Data>>,
    pub since_version: Option<u32>,
}

impl View for Group {
    type V = GroupV;

    open spec fn view(&self) -> GroupV {
        GroupV {
            id: self.id,
            dimension_type: self.dimension_type@,
            fields: view_opt_seq(self.fields),
            data: view_opt_seq(self.data),
            since_version: self.since_version,
        }
    }
}

impl ViewEq for Group {
    fn view_eq(&self, other: &Self) -> (r: bool) {
        let r = self.id == other.id && self.dimension_type == other.dimension_type
            && opt_vec_view_eq(&self.fields, &other.fields)
            && opt_vec_view_eq(&self.data, &other.data)
            && opt_u32_eq(&self.since_version, &other.since_version);
        proof {
            if r {
                assert(self@ =~= other@);
            }
        }
        r
    }
}

/// The wire-relevant content of a [`Message`]. The human-readable `name` is
/// not part of it: messages are keyed by their stable `id`.
#[verifier::ext_equal]
pub struct MessageV {
    pub id: u32,
    pub fields: Option<Seq<FieldV>>,
    pub groups: Option<Seq<GroupV>>,
    pub semantic_type: Option<Seq<char>>,
}

/// A message declaration: an ordered set of fields and repeating groups.
#[derive(Clone)]
pub struct Message {
    pub name: String,
    pub description: Option<String>,
    pub id: u32,
    pub fields: Option<Vec<Field>>,
    pub groups: Option<Vec<Group>>,
    pub semantic_type: Option<String>,
}

impl View for Message {
    type V = MessageV;

    open spec fn view(&self) -> MessageV {
        MessageV {
            id: self.id,
            fields: view_opt_seq(self.fields),
            groups: view_opt_seq(self.groups),
            semantic_type: view_opt(self.semantic_type),
        }
    }
}

impl ViewEq for Message {
    fn view_eq(&self, other: &Self) -> (r: bool) {
        let r = self.id == other.id && opt_vec_view_eq(&self.fields, &other.fields)
            && opt_vec_view_eq(&self.groups, &other.groups)
            && opt_string_eq(&self.semantic_type, &other.semantic_type);
        proof {
            if r {
                assert(self@ =~= other@);
            }
        }
        r
    }
}

/// The wire-relevant content of a [`Types`] block.
#[verifier::ext_equal]
pub struct TypesV {
    pub composites: Option<Seq<CompositeV>>,
    pub enums: Option<Seq<EnumTypeV>>,
    pub sets: Option<Seq<SetTypeV>>,
}

/// One `types` block of a schema. A schema may hold several; they are
/// flattened for comparison.
#[derive(Clone)]
pub struct Types {
    pub composites: Option<Vec<Composite>>,
    pub enums: Option<Vec<EnumType>>,
    pub sets: Option<Vec<SetType>>,
}

impl View for Types {
    type V = TypesV;

    open spec fn view(&self) -> TypesV {
        TypesV {
            composites: view_opt_seq(self.composites),
            enums: view_opt_seq(self.enums),
            sets: view_opt_seq(self.sets),
        }
    }
}

impl ViewEq for Types {
    fn view_eq(&self, other: &Self) -> (r: bool) {
        let r = opt_vec_view_eq(&self.composites, &other.composites)
            && opt_vec_view_eq(&self.enums, &other.enums)
            && opt_vec_view_eq(&self.sets, &other.sets);
        proof {
            if r {
                assert(self@ =~= other@);
            }
        }
        r
    }
}

/// The content of an [`Include`].
#[verifier::ext_equal]
pub struct IncludeV {
    pub href: Seq<char>,
}

/// A directive pulling another schema document into this one.
#[derive(Clone)]
pub struct Include {
    pub href: String,
}

impl View for Include {
    type V = IncludeV;

    open spec fn view(&self) -> IncludeV {
        IncludeV { href: self.href@ }
    }
}

impl ViewEq for Include {
    fn view_eq(&self, other: &Self) -> (r: bool) {
        let r = self.href == other.href;
        proof {
            if r {
                assert(self@ =~= other@);
            }
        }
        r
    }
}

/// The content of a [`SematicVersion`].
#[verifier::ext_equal]
pub struct SematicVersionV {
    pub major: u64,
    pub minor: u64,
    pub patch: u64,
    pub pre: Seq<char>,
    pub build_metadata: Seq<char>,
}

/// A semantic version, held as its plain components.
#[derive(Clone)]
pub struct SematicVersion {
    pub major: u64,
    pub minor: u64,
    pub patch: u64,
    /// The pre-release identifier, empty when absent.
    pub pre: String,
    /// The build metadata, empty when absent.
    pub build_metadata: String,
}

impl View for SematicVersion {
    type V = SematicVersionV;

    open spec fn view(&self) -> SematicVersionV {
        SematicVersionV {
            major: self.major,
            minor: self.minor,
            patch: self.patch,
            pre: self.pre@,
            build_metadata: self.build_metadata@,
        }
    }
}

impl ViewEq for SematicVersion {
    fn view_eq(&self, other: &Self) -> (r: bool) {
        let r = self.major == other.major && self.minor == other.minor
            && self.patch == other.patch && self.pre == other.pre
            && self.build_metadata == other.build_metadata;
        proof {
            if r {
                assert(self@ =~= other@);
            }
        }
        r
    }
}

impl Default for SematicVersion {
    /// Version 0.0.0 with no pre-release or build metadata.
    fn default() -> (r: Self)
        ensures
            r@.major == 0 && r@.minor == 0 && r@.patch == 0,
            r@.pre.len() == 0 && r@.build_metadata.len() == 0,
    {
        SematicVersion {
            major: 0,
            minor: 0,
            patch: 0,
            pre: String::new(),
            build_metadata: String::new(),
        }
    }
}

impl Default for Schema {
    /// An empty schema: no version, no types, no messages.
    fn default() -> (r: Self)
        ensures
            r@.package.len() == 0,
            r@.id == 0,
            r@.version is None,
            r@.semantic_version.major == 0,
            r@.semantic_version.minor == 0,
            r@.semantic_version.patch == 0,
            r@.semantic_version.pre.len() == 0,
            r@.semantic_version.build_metadata.len() == 0,
            r@.byte_order is None,
            r@.types is None,
            r@.messages is None,
    {
        Schema {
            package: String::new(),
            id: 0,
            version: None,
            semantic_version: SematicVersion::default(),
            description: String::new(),
            byte_order: None,
            includes: None,
            types: None,
            messages: None,
        }
    }
}

/// The wire-relevant content of a [`Schema`].
#[verifier::ext_equal]
pub struct SchemaV {
    pub package: Seq<char>,
    pub id: i32,
    pub version: Option<u32>,
    pub semantic_version: SematicVersionV,
    pub byte_order: Option<ByteOrder>,
    pub types: Option<Seq<TypesV>>,
    pub messages: Option<Seq<MessageV>>,
}

/// A top level SBE schema: the root of the model.
#[derive(Clone)]
pub struct Schema {
    /// The package name of the schema.
    pub package: String,
    /// The id of the schema.
    pub id: i32,
    /// The version of the schema.
    pub version: Option<u32>,
    /// The semantic version of the schema.
    pub semantic_version: SematicVersion,
    /// The description of the schema.
    pub description: String,
    /// The byte order of the bytes.
    pub byte_order: Option<ByteOrder>,
    /// The documents pulled into the schema.
    pub includes: Option<Vec<Include>>,
    /// The types of the schema.
    pub types: Option<Vec<Types>>,
    /// The messages of the schema.
    pub messages: Option<Vec<Message>>,
}

impl View for Schema {
    type V = SchemaV;

    open spec fn view(&self) -> SchemaV {
        SchemaV {
            package: self.package@,
            id: self.id,
            version: self.version,
            semantic_version: self.semantic_version@,
            byte_order: self.byte_order,
            types: view_opt_seq(self.types),
            messages: view_opt_seq(self.messages),
        }
    }
}

impl ViewEq for Schema {
    fn view_eq(&self, other: &Self) -> (r: bool) {
        let r = self.package == other.package && self.id == other.id
            && opt_u32_eq(&self.version, &other.version)
            && self.semantic_version.view_eq(&other.semantic_version)
            && opt_byte_order_eq(&self.byte_order, &other.byte_order)
            && opt_vec_view_eq(&self.types, &other.types)
            && opt_vec_view_eq(&self.messages, &other.messages);
        proof {
            if r {
                assert(self@ =~= other@);
            }
        }
        r
    }
}

} // verus!

verus! {

/// Copying a model value: the copy has the same wire-relevant content.
pub trait CloneView: View + Sized {
    /// Copy the value.
    fn clone_view(&self) -> (r: Self)
        ensures
            r@ == self@,
    ;
}

/// Copy an optional string.
pub fn clone_opt_string(o: &Option<String>) -> (r: Option<String>)
    ensures
        view_opt(r) == view_opt(*o),
{
    match o {
        Some(s) => Some(s.clone()),
        None => None,
    }
}

/// Copy every element of a vector of model values.
pub fn vec_clone_view<T: CloneView>(v: &Vec<T>) -> (r: Vec<T>)
    ensures
        view_seq(r@) == view_seq(v@),
{
    let mut out: Vec<T> = Vec::new();
    let mut i: usize = 0;
    while i < v.len()
        invariant
            i <= v.len(),
            out@.len() == i,
            forall|j: int| 0 <= j < i ==> out@[j]@ == v@[j]@,
        decreases v.len() - i,
    {
        out.push(v[i].clone_view());
        i += 1;
    }
    proof {
        assert forall|j: int| 0 <= j < v@.len() implies view_seq(out@)[j] == view_seq(v@)[j] by {
            assert(view_seq(out@)[j] == out@[j]@);
            assert(view_seq(v@)[j] == v@[j]@);
        }
        assert(view_seq(out@) =~= view_seq(v@));
    }
    out
}

/// Copy an optional vector of model values.
pub fn opt_vec_clone_view<T: CloneView>(o: &Option<Vec<T>>) -> (r: Option<Vec<T>>)
    ensures
        view_opt_seq(r) == view_opt_seq(*o),
{
    match o {
        Some(v) => Some(vec_clone_view(v)),
        None => None,
    }
}

impl CloneView for Type {
    fn clone_view(&self) -> (r: Self) {
        let r = Type {
            name: self.name.clone(),
            description: clone_opt_string(&self.description),
            primitive_type: self.primitive_type,
            length: self.length,
            max_value: clone_opt_string(&self.max_value),
            min_value: clone_opt_string(&self.min_value),
            null_value: clone_opt_string(&self.null_value),
            character_encoding: clone_opt_string(&self.character_encoding),
            presence: self.presence,
            since_version: self.since_version,
            value: clone_opt_string(&self.value),
        };
        proof {
            assert(r@ =~= self@);
        }
        r
    }
}

impl CloneView for Ref {
    fn clone_view(&self) -> (r: Self) {
        let r = Ref {
            name: self.name.clone(),
            description: clone_opt_string(&self.description),
            ref_type: self.ref_type.clone(),
            presence: self.presence,
            value_ref: clone_opt_string(&self.value_ref),
        };
        proof {
            assert(r@ =~= self@);
        }
        r
    }
}

impl CloneView for ValidValue {
    fn clone_view(&self) -> (r: Self) {
        let r = ValidValue {
            name: self.name.clone(),
            description: clone_opt_string(&self.description),
            value: self.value.clone(),
        };
        proof {
            assert(r@ =~= self@);
        }
        r
    }
}

impl CloneView for Choice {
    fn clone_view(&self) -> (r: Self) {
        let r = Choice {
            name: self.name.clone(),
            description: clone_opt_string(&self.description),
            value: self.value.clone(),
        };
        proof {
            assert(r@ =~= self@);
        }
        r
    }
}

impl CloneView for EnumType {
    fn clone_view(&self) -> (r: Self) {
        let r = EnumType {
            name: self.name.clone(),
            description: clone_opt_string(&self.description),
            encoding_type: self.encoding_type,
            valid_values: opt_vec_clone_view(&self.valid_values),
        };
        proof {
            assert(r@ =~= self@);
        }
        r
    }
}

impl CloneView for SetType {
    fn clone_view(&self) -> (r: Self) {
        let r = SetType {
            name: self.name.clone(),
            description: clone_opt_string(&self.description),
            encoding_type: self.encoding_type,
            choices: opt_vec_clone_view(&self.choices),
        };
        proof {
            assert(r@ =~= self@);
        }
        r
    }
}

impl CloneView for Composite {
    fn clone_view(&self) -> (r: Self) {
        let r = Composite {
            name: self.name.clone(),
            description: clone_opt_string(&self.description),
            types: opt_vec_clone_view(&self.types),
            refs: opt_vec_clone_view(&self.refs),
        };
        proof {
            assert(r@ =~= self@);
        }
        r
    }
}

/// The name that the mandatory message header composite carries.
pub open spec fn message_header_name() -> Seq<char> {
    "messageHeader"@
}

/// The first composite of `cs` whose name is `name`, if any.
pub open spec fn first_composite_named(cs: Seq<CompositeV>, name: Seq<char>) -> Option<CompositeV>
    decreases cs.len(),
{
    if cs.len() == 0 {
        None
    } else if cs[0].name == name {
        Some(cs[0])
    } else {
        first_composite_named(cs.drop_first(), name)
    }
}

/// The message header composite declared in one types block, if any.
pub open spec fn header_in_block(t: TypesV) -> Option<CompositeV> {
    match t.composites {
        Some(cs) => first_composite_named(cs, message_header_name()),
        None => None,
    }
}

/// The message header composite declared in a sequence of types blocks:
/// the first declaration wins.
pub open spec fn header_in_blocks(ts: Seq<TypesV>) -> Option<CompositeV>
    decreases ts.len(),
{
    if ts.len() == 0 {
        None
    } else {
        match header_in_block(ts[0]) {
            Some(c) => Some(c),
            None => header_in_blocks(ts.drop_first()),
        }
    }
}

/// The message header composite of a schema, if any.
pub open spec fn message_header_v(s: SchemaV) -> Option<CompositeV> {
    match s.types {
        Some(ts) => header_in_blocks(ts),
        None => None,
    }
}

/// Whether a declared name is the message header name.
pub fn is_message_header_name(s: &String) -> (r: bool)
    ensures
        r == (s@ == message_header_name()),
{
    let m: String = String::from_str("messageHeader");
    *s == m
}

/// The first composite of `cs` named `messageHeader`, if any.
fn find_header_composite(cs: &Vec<Composite>) -> (r: Option<&Composite>)
    ensures
        match r {
            Some(c) => first_composite_named(view_seq(cs@), message_header_name()) == Some(c@),
            None => first_composite_named(view_seq(cs@), message_header_name()) is None,
        },
{
    let ghost csv = view_seq(cs@);
    proof {
        assert(csv.skip(0) =~= csv);
    }
    let mut j: usize = 0;
    while j < cs.len()
        invariant
            j <= cs.len(),
            csv == view_seq(cs@),
            csv.len() == cs@.len(),
            first_composite_named(csv, message_header_name()) == first_composite_named(
                csv.skip(j as int),
                message_header_name(),
            ),
        decreases cs.len() - j,
    {
        proof {
            assert(csv[j as int] == cs@[j as int]@);
            assert(csv.skip(j as int)[0] == csv[j as int]);
            assert(csv.skip(j as int).drop_first() =~= csv.skip(j as int + 1));
        }
        if is_message_header_name(&cs[j].name) {
            return Some(&cs[j]);
        }
        j += 1;
    }
    proof {
        assert(csv.skip(j as int).len() == 0);
    }
    None
}

impl Schema {
    /// Get the message header composite type: the first composite named
    /// `messageHeader` among the schema's types blocks.
    pub fn message_header(&self) -> (r: Option<&Composite>)
        ensures
            match r {
                Some(c) => message_header_v(self@) == Some(c@),
                None => message_header_v(self@) is None,
            },
    {
        let blocks = match &self.types {
            Some(blocks) => blocks,
            None => {
                return None;
            },
        };
        let ghost tsv = view_seq(blocks@);
        proof {
            assert(tsv.skip(0) =~= tsv);
        }
        let mut i: usize = 0;
        while i < blocks.len()
            invariant
                i <= blocks.len(),
                tsv == view_seq(blocks@),
                tsv.len() == blocks@.len(),
                view_opt_seq(self.types) == Some(tsv),
                header_in_blocks(tsv) == header_in_blocks(tsv.skip(i as int)),
            decreases blocks.len() - i,
        {
            proof {
                assert(tsv[i as int] == blocks@[i as int]@);
                assert(tsv.skip(i as int)[0] == tsv[i as int]);
                assert(tsv.skip(i as int).drop_first() =~= tsv.skip(i as int + 1));
            }
            match &blocks[i].composites {
                Some(cs) => {
                    proof {
                        assert(tsv[i as int].composites == Some(view_seq(cs@)));
                    }
                    match find_header_composite(cs) {
                        Some(c) => {
                            return Some(c);
                        },
                        None => {},
                    }
                },
                None => {},
            }
            i += 1;
        }
        proof {
            assert(tsv.skip(i as int).len() == 0);
        }
        None
    }
}

} // verus!

verus! {

/// A reference to a declaring construct: its position inside the schema
/// that owns the lookup table.
#[derive(Debug, Clone, Copy, PartialEq, Eq, Structural)]
pub enum VTableObject {
    /// A composite, by types block index and position within the block.
    Composite(usize, usize),
    /// An enum type, by types block index and position within the block.
    Enum(usize, usize),
    /// A set type, by types block index and position within the block.
    SetType(usize, usize),
    /// A standalone type, by types block index and position within the block.
    Type(usize, usize),
    /// A message, by position among the schema's messages.
    Message(usize),
}

/// The map denoted by a sequence of name/object entries: a later entry for
/// the same name wins.
pub open spec fn entries_map(es: Seq<(String, VTableObject)>) -> Map<Seq<char>, VTableObject>
    decreases es.len(),
{
    if es.len() == 0 {
        Map::empty()
    } else {
        entries_map(es.drop_last()).insert(es.last().0@, es.last().1)
    }
}

/// A name is bound by the entries exactly when some entry carries it.
pub proof fn lemma_entries_map_domain(es: Seq<(String, VTableObject)>, name: Seq<char>)
    ensures
        entries_map(es).contains_key(name) == exists|i: int|
            0 <= i < es.len() && (#[trigger] es[i]).0@ == name,
    decreases es.len(),
{
    if es.len() > 0 {
        lemma_entries_map_domain(es.drop_last(), name);
        if es.last().0@ == name {
            assert(es[es.len() - 1].0@ == name);
        } else {
            if exists|i: int| 0 <= i < es.len() && (#[trigger] es[i]).0@ == name {
                let i = choose|i: int| 0 <= i < es.len() && (#[trigger] es[i]).0@ == name;
                assert(i < es.len() - 1);
                assert(es.drop_last()[i].0@ == name);
            }
            if exists|i: int| 0 <= i < es.drop_last().len() && (#[trigger] es.drop_last()[i]).0@
                == name {
                let i = choose|i: int|
                    0 <= i < es.drop_last().len() && (#[trigger] es.drop_last()[i]).0@ == name;
                assert(es[i].0@ == name);
            }
        }
    }
}

/// The by-name lookup table of a schema: it maps each declared type name to
/// a reference of the declaring construct.
pub struct VTable {
    entries: Vec<(String, VTableObject)>,
}

impl View for VTable {
    type V = Map<Seq<char>, VTableObject>;

    closed spec fn view(&self) -> Map<Seq<char>, VTableObject> {
        entries_map(self.entries@)
    }
}

impl Default for VTable {
    /// An empty lookup table.
    fn default() -> (r: Self)
        ensures
            r@ == Map::<Seq<char>, VTableObject>::empty(),
    {
        VTable::new()
    }
}

impl VTable {
    /// Create an empty lookup table.
    pub fn new() -> (r: Self)
        ensures
            r@ == Map::<Seq<char>, VTableObject>::empty(),
    {
        let r = VTable { entries: Vec::new() };
        proof {
            assert(r.entries@.len() == 0);
        }
        r
    }

    /// Bind a name to a construct; a binding added later for the same name
    /// replaces an earlier one.
    pub fn add(&mut self, name: String, obj: VTableObject)
        ensures
            final(self)@ == old(self)@.insert(name@, obj),
    {
        let ghost nv = name@;
        self.entries.push((name, obj));
        proof {
            assert(self.entries@.drop_last() =~= old(self).entries@);
            assert(self.entries@.last().0@ == nv);
            assert(self.entries@.last().1 == obj);
        }
    }

    /// Whether the table binds a name.
    pub fn contains_name(&self, name: &String) -> (r: bool)
        ensures
            r == self@.contains_key(name@),
    {
        let mut i: usize = 0;
        while i < self.entries.len()
            invariant
                i <= self.entries.len(),
                forall|k: int| 0 <= k < i ==> (#[trigger] self.entries@[k]).0@ != name@,
            decreases self.entries.len() - i,
        {
            if self.entries[i].0 == *name {
                proof {
                    lemma_entries_map_domain(self.entries@, name@);
                }
                return true;
            }
            i += 1;
        }
        proof {
            lemma_entries_map_domain(self.entries@, name@);
        }
        false
    }

    /// Look up the construct bound to a name, if any.
    pub fn get(&self, name: &String) -> (r: Option<&VTableObject>)
        ensures
            match r {
                Some(o) => self@.contains_key(name@) && *o == self@[name@],
                None => !self@.contains_key(name@),
            },
    {
        let ghost es = self.entries@;
        let mut k: usize = self.entries.len();
        proof {
            assert(es.take(k as int) =~= es);
        }
        while k > 0
            invariant
                k <= self.entries.len(),
                es == self.entries@,
                entries_map(es).contains_key(name@) == entries_map(es.take(k as int)).contains_key(
                    name@,
                ),
                entries_map(es).contains_key(name@) ==> entries_map(es.take(k as int))[name@]
                    == entries_map(es)[name@],
            decreases k,
        {
            proof {
                assert(es.take(k as int).drop_last() =~= es.take(k as int - 1));
                assert(es.take(k as int).last() == es[k as int - 1]);
            }
            if self.entries[k - 1].0 == *name {
                return Some(&self.entries[k - 1].1);
            }
            k -= 1;
        }
        proof {
            assert(es.take(0).len() == 0);
        }
        None
    }
}

} // verus!

verus! {

/// The types blocks of a schema; an absent types section counts as empty.
pub open spec fn schema_blocks(s: SchemaV) -> Seq<TypesV> {
    match s.types {
        Some(ts) => ts,
        None => Seq::empty(),
    }
}

/// The lookup object for a declaration at block `b`, position `j`, of the
/// given kind: composites, enums and sets are numbered in this order.
pub open spec fn vtable_object_for(kind: int, b: int, j: int) -> VTableObject {
    if kind == 0 {
        VTableObject::Composite(b as usize, j as usize)
    } else if kind == 1 {
        VTableObject::Enum(b as usize, j as usize)
    } else {
        VTableObject::SetType(b as usize, j as usize)
    }
}

/// Whether the declaration at block `b`, kind `kind`, position `j` exists
/// and carries `name`.
pub open spec fn declares_name(
    ts: Seq<TypesV>,
    b: int,
    kind: int,
    j: int,
    name: Seq<char>,
) -> bool {
    &&& 0 <= b < ts.len()
    &&& if kind == 0 {
        match ts[b].composites {
            Some(cs) => 0 <= j < cs.len() && cs[j].name == name,
            None => false,
        }
    } else if kind == 1 {
        match ts[b].enums {
            Some(es) => 0 <= j < es.len() && es[j].name == name,
            None => false,
        }
    } else if kind == 2 {
        match ts[b].sets {
            Some(ss) => 0 <= j < ss.len() && ss[j].name == name,
            None => false,
        }
    } else {
        false
    }
}

/// Whether two distinct declarations of the schema carry the same name.
pub open spec fn schema_has_duplicate_type_name(ts: Seq<TypesV>) -> bool {
    exists|b1: int, k1: int, j1: int, b2: int, k2: int, j2: int, name: Seq<char>|
        #![trigger declares_name(ts, b1, k1, j1, name), declares_name(ts, b2, k2, j2, name)]
        declares_name(ts, b1, k1, j1, name) && declares_name(ts, b2, k2, j2, name) && (b1 != b2
            || k1 != k2 || j1 != j2)
}

/// Build the lookup table of a schema: every composite, enum and set is
/// bound by name; a name declared twice is an error.
pub fn build_vtable(schema: &Schema) -> (r: Result<VTable, crate::SbeSchemaError>)
    ensures
        match r {
            Ok(vt) => {
                &&& !schema_has_duplicate_type_name(schema_blocks(schema@))
                &&& forall|b: int, k: int, j: int, n: Seq<char>|
                    #[trigger] declares_name(schema_blocks(schema@), b, k, j, n)
                        ==> vt@.contains_key(n) && vt@[n] == vtable_object_for(k, b, j)
                &&& forall|n: Seq<char>| #[trigger]
                    vt@.contains_key(n) ==> exists|b: int, k: int, j: int|
                        declares_name(schema_blocks(schema@), b, k, j, n)
            },
            Err(e) => {
                &&& e == crate::SbeSchemaError::DuplicateTypeName
                &&& schema_has_duplicate_type_name(schema_blocks(schema@))
            },
        },
{
    let blocks = match &schema.types {
        Some(bs) => bs,
        None => {
            let vt = VTable::new();
            return Ok(vt);
        },
    };
    let ghost tsv = view_seq(blocks@);
    proof {
        assert(schema_blocks(schema@) == tsv);
    }
    let mut vtable = VTable::new();
    let mut b: usize = 0;
    while b < blocks.len()
        invariant
            b <= blocks.len(),
            tsv == view_seq(blocks@),
            tsv.len() == blocks@.len(),
            forall|b2: int, k2: int, j2: int, n: Seq<char>|
                b2 < b && #[trigger] declares_name(tsv, b2, k2, j2, n) ==> vtable@.contains_key(n)
                    && vtable@[n] == vtable_object_for(k2, b2, j2),
            forall|n: Seq<char>| #[trigger]
                vtable@.contains_key(n) ==> exists|b2: int, k2: int, j2: int|
                    b2 < b && declares_name(tsv, b2, k2, j2, n),
            schema_blocks(schema@) == tsv,
            forall|b1: int, k1: int, j1: int, b2: int, k2: int, j2: int, n: Seq<char>|
                #![trigger declares_name(tsv, b1, k1, j1, n), declares_name(tsv, b2, k2, j2, n)]
                b1 < b && b2 < b && declares_name(tsv, b1, k1, j1, n) && declares_name(
                    tsv,
                    b2,
                    k2,
                    j2,
                    n,
                ) ==> b1 == b2 && k1 == k2 && j1 == j2,
        decreases blocks.len() - b,
    {
        proof {
            assert(tsv[b as int] == blocks@[b as int]@);
        }
        match &blocks[b].composites {
            Some(cs) => {
                proof {
                    assert(tsv[b as int].composites == Some(view_seq(cs@)));
                }
                let mut j: usize = 0;
                while j < cs.len()
                    invariant
                        j <= cs.len(),
                        b < blocks@.len(),
                        tsv == view_seq(blocks@),
                        tsv.len() == blocks@.len(),
                        tsv[b as int].composites == Some(view_seq(cs@)),
                        view_seq(cs@).len() == cs@.len(),
                        forall|b2: int, k2: int, j2: int, n: Seq<char>|
                            (b2 < b || (b2 == b && k2 == 0 && j2 < j)) && #[trigger] declares_name(
                                tsv,
                                b2,
                                k2,
                                j2,
                                n,
                            ) ==> vtable@.contains_key(n) && vtable@[n] == vtable_object_for(
                                k2,
                                b2,
                                j2,
                            ),
                        forall|n: Seq<char>| #[trigger]
                            vtable@.contains_key(n) ==> exists|b2: int, k2: int, j2: int|
                                (b2 < b || (b2 == b && k2 == 0 && j2 < j)) && declares_name(
                                    tsv,
                                    b2,
                                    k2,
                                    j2,
                                    n,
                                ),
                        schema_blocks(schema@) == tsv,
                        forall|b1: int, k1: int, j1: int, b2: int, k2: int, j2: int, n: Seq<char>|
                            #![trigger declares_name(tsv, b1, k1, j1, n), declares_name(tsv, b2, k2, j2, n)]
                            (b1 < b || (b1 == b && k1 == 0 && j1 < j)) && (b2 < b || (b2 == b && k2
                                == 0 && j2 < j)) && declares_name(tsv, b1, k1, j1, n)
                                && declares_name(tsv, b2, k2, j2, n) ==> b1 == b2 && k1 == k2 && j1
                                == j2,
                    decreases cs.len() - j,
                {
                    proof {
                        assert(view_seq(cs@)[j as int] == cs@[j as int]@);
                        assert(declares_name(tsv, b as int, 0, j as int, cs@[j as int].name@));
                    }
                    if vtable.contains_name(&cs[j].name) {
                        proof {
                            let (b2, k2, j2) = choose|b2: int, k2: int, j2: int|
                                (b2 < b || (b2 == b && k2 == 0 && j2 < j)) && declares_name(
                                    tsv,
                                    b2,
                                    k2,
                                    j2,
                                    cs@[j as int].name@,
                                );
                            assert(b2 != b as int || k2 != 0 || j2 != j as int);
                        }
                        return Err(crate::SbeSchemaError::DuplicateTypeName);
                    }
                    vtable.add(cs[j].name.clone(), VTableObject::Composite(b, j));
                    j += 1;
                }
            },
            None => {},
        }
        match &blocks[b].enums {
            Some(es) => {
                proof {
                    assert(tsv[b as int].enums == Some(view_seq(es@)));
                }
                let mut j: usize = 0;
                while j < es.len()
                    invariant
                        j <= es.len(),
                        b < blocks@.len(),
                        tsv == view_seq(blocks@),
                        tsv.len() == blocks@.len(),
                        tsv[b as int].enums == Some(view_seq(es@)),
                        view_seq(es@).len() == es@.len(),
                        forall|b2: int, k2: int, j2: int, n: Seq<char>|
                            (b2 < b || (b2 == b && (k2 == 0 || (k2 == 1 && j2 < j)))) && #[trigger]
                            declares_name(tsv, b2, k2, j2, n) ==> vtable@.contains_key(n)
                                && vtable@[n] == vtable_object_for(k2, b2, j2),
                        forall|n: Seq<char>| #[trigger]
                            vtable@.contains_key(n) ==> exists|b2: int, k2: int, j2: int|
                                (b2 < b || (b2 == b && (k2 == 0 || (k2 == 1 && j2 < j))))
                                    && declares_name(tsv, b2, k2, j2, n),
                        schema_blocks(schema@) == tsv,
                        forall|b1: int, k1: int, j1: int, b2: int, k2: int, j2: int, n: Seq<char>|
                            #![trigger declares_name(tsv, b1, k1, j1, n), declares_name(tsv, b2, k2, j2, n)]
                            (b1 < b || (b1 == b && (k1 == 0 || (k1 == 1 && j1 < j)))) && (b2 < b || (b2 == b && (k2 == 0 || (k2 == 1 && j2 < j)))) && declares_name(tsv, b1, k1, j1, n) && declares_name(
                                tsv,
                                b2,
                                k2,
                                j2,
                                n,
                            ) ==> b1 == b2 && k1 == k2 && j1 == j2,
                    decreases es.len() - j,
                {
                    proof {
                        assert(view_seq(es@)[j as int] == es@[j as int]@);
                        assert(declares_name(tsv, b as int, 1, j as int, es@[j as int].name@));
                    }
                    if vtable.contains_name(&es[j].name) {
                        proof {
                            let (b2, k2, j2) = choose|b2: int, k2: int, j2: int|
                                (b2 < b || (b2 == b && (k2 == 0 || (k2 == 1 && j2 < j))))
                                    && declares_name(tsv, b2, k2, j2, es@[j as int].name@);
                            assert(b2 != b as int || k2 != 1 || j2 != j as int);
                        }
                        return Err(crate::SbeSchemaError::DuplicateTypeName);
                    }
                    vtable.add(es[j].name.clone(), VTableObject::Enum(b, j));
                    j += 1;
                }
            },
            None => {},
        }
        match &blocks[b].sets {
            Some(ss) => {
                proof {
                    assert(tsv[b as int].sets == Some(view_seq(ss@)));
                }
                let mut j: usize = 0;
                while j < ss.len()
                    invariant
                        j <= ss.len(),
                        b < blocks@.len(),
                        tsv == view_seq(blocks@),
                        tsv.len() == blocks@.len(),
                        tsv[b as int].sets == Some(view_seq(ss@)),
                        view_seq(ss@).len() == ss@.len(),
                        forall|b2: int, k2: int, j2: int, n: Seq<char>|
                            (b2 < b || (b2 == b && (k2 <= 1 || (k2 == 2 && j2 < j)))) && #[trigger]
                            declares_name(tsv, b2, k2, j2, n) ==> vtable@.contains_key(n)
                                && vtable@[n] == vtable_object_for(k2, b2, j2),
                        forall|n: Seq<char>| #[trigger]
                            vtable@.contains_key(n) ==> exists|b2: int, k2: int, j2: int|
                                (b2 < b || (b2 == b && (k2 <= 1 || (k2 == 2 && j2 < j))))
                                    && declares_name(tsv, b2, k2, j2, n),
                        schema_blocks(schema@) == tsv,
                        forall|b1: int, k1: int, j1: int, b2: int, k2: int, j2: int, n: Seq<char>|
                            #![trigger declares_name(tsv, b1, k1, j1, n), declares_name(tsv, b2, k2, j2, n)]
                            (b1 < b || (b1 == b && (k1 <= 1 || (k1 == 2 && j1 < j)))) && (b2 < b || (b2 == b && (k2 <= 1 || (k2 == 2 && j2 < j)))) && declares_name(tsv, b1, k1, j1, n) && declares_name(
                                tsv,
                                b2,
                                k2,
                                j2,
                                n,
                            ) ==> b1 == b2 && k1 == k2 && j1 == j2,
                    decreases ss.len() - j,
                {
                    proof {
                        assert(view_seq(ss@)[j as int] == ss@[j as int]@);
                        assert(declares_name(tsv, b as int, 2, j as int, ss@[j as int].name@));
                    }
                    if vtable.contains_name(&ss[j].name) {
                        proof {
                            let (b2, k2, j2) = choose|b2: int, k2: int, j2: int|
                                (b2 < b || (b2 == b && (k2 <= 1 || (k2 == 2 && j2 < j))))
                                    && declares_name(tsv, b2, k2, j2, ss@[j as int].name@);
                            assert(b2 != b as int || k2 != 2 || j2 != j as int);
                        }
                        return Err(crate::SbeSchemaError::DuplicateTypeName);
                    }
                    vtable.add(ss[j].name.clone(), VTableObject::SetType(b, j));
                    j += 1;
                }
            },
            None => {},
        }
        b += 1;
    }
    proof {
        assert(!schema_has_duplicate_type_name(tsv)) by {
            if schema_has_duplicate_type_name(tsv) {
                let (b1, k1, j1, b2, k2, j2, n) = choose|
                    b1: int,
                    k1: int,
                    j1: int,
                    b2: int,
                    k2: int,
                    j2: int,
                    n: Seq<char>,
                |
                    #![trigger declares_name(tsv, b1, k1, j1, n), declares_name(tsv, b2, k2, j2, n)]
                    declares_name(tsv, b1, k1, j1, n) && declares_name(tsv, b2, k2, j2, n) && (b1
                        != b2 || k1 != k2 || j1 != j2);
                assert(b1 < b && b2 < b);
                assert(false);
            }
        }
    }
    Ok(vtable)
}

} // verus!
