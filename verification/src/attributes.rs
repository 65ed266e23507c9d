//! Attribute schema definitions for semantic attributes
use vstd::prelude::*;

use crate::sorted::{lemma_seq_less_asymmetric, lemma_seq_less_total, lemma_seq_less_transitive, str_less};
use crate::text::{copy_string, seq_less, str_eq};

verus! {

/// Data type for semantic attributes
///
/// Serialized as PascalCase to match STAC 3D City Models Extension specification.
#[derive(Debug, Clone, Copy, PartialEq, Eq, Structural)]
pub enum AttributeType {
    String,
    Number,
    Boolean,
    Date,
    Array,
    Object,
}

/// The kind of a JSON value.
#[derive(Debug, Clone, Copy, PartialEq, Eq, Structural)]
pub enum JsonKind {
    Null,
    Bool,
    Number,
    String,
    Array,
    Object,
}

/// `serde_json::Value`, carried through without inspection.
#[verifier::external_type_specification]
#[verifier::external_body]
pub struct ExJsonValue(serde_json::Value);

/// Which variant of `serde_json::Value` a value is; it depends on the value
/// alone.
pub uninterp spec fn json_value_kind(v: serde_json::Value) -> JsonKind;

/// Tells the variants of `serde_json::Value` apart, one arm per variant; the
/// kind is named by `json_value_kind`.
#[verifier::external_body]
fn json_kind_of(value: &serde_json::Value) -> (r: JsonKind)
    ensures
        r == json_value_kind(*value),
{
    match value {
        serde_json::Value::Null => JsonKind::Null,
        serde_json::Value::Bool(_) => JsonKind::Bool,
        serde_json::Value::Number(_) => JsonKind::Number,
        serde_json::Value::String(_) => JsonKind::String,
        serde_json::Value::Array(_) => JsonKind::Array,
        serde_json::Value::Object(_) => JsonKind::Object,
    }
}

/// The attribute type that a JSON value of the given kind has (null reads as
/// a string).
pub open spec fn type_of_kind(kind: JsonKind) -> AttributeType {
    match kind {
        JsonKind::Null => AttributeType::String,
        JsonKind::Bool => AttributeType::Boolean,
        JsonKind::Number => AttributeType::Number,
        JsonKind::String => AttributeType::String,
        JsonKind::Array => AttributeType::Array,
        JsonKind::Object => AttributeType::Object,
    }
}

/// The attribute type that an observed value contributes to a schema: none
/// for null, which is skipped.
pub open spec fn observed_type(kind: JsonKind) -> Option<AttributeType> {
    match kind {
        JsonKind::Null => None,
        _ => Some(type_of_kind(kind)),
    }
}

impl JsonKind {
    /// The kind of a JSON value.
    pub fn of_value(value: &serde_json::Value) -> (r: JsonKind)
        ensures
            r == json_value_kind(*value),
    {
        json_kind_of(value)
    }
}

impl AttributeType {
    /// Infer attribute type from the kind of a JSON value
    pub fn from_json_kind(kind: JsonKind) -> (r: AttributeType)
        ensures
            r == type_of_kind(kind),
    {
        match kind {
            JsonKind::Null => AttributeType::String,
            JsonKind::Bool => AttributeType::Boolean,
            JsonKind::Number => AttributeType::Number,
            JsonKind::String => AttributeType::String,
            JsonKind::Array => AttributeType::Array,
            JsonKind::Object => AttributeType::Object,
        }
    }

    /// Infer attribute type from a JSON value
    pub fn from_json_value(value: &serde_json::Value) -> (r: AttributeType)
        ensures
            r == type_of_kind(json_value_kind(*value)),
    {
        let k = json_kind_of(value);
        Self::from_json_kind(k)
    }
}

/// Schema definition for a semantic attribute
#[derive(Debug, Clone, PartialEq)]
pub struct AttributeDefinition {
    /// Attribute name
    pub name: String,
    /// Data type
    pub attr_type: AttributeType,
    /// Human-readable description
    pub description: Option<String>,
    /// Whether attribute is always present
    pub required: Option<bool>,
}

impl AttributeDefinition {
    /// Create a new attribute definition
    pub fn new(name: &str, attr_type: AttributeType) -> (r: Self)
        ensures
            r.name@ == name@,
            r.attr_type == attr_type,
            r.description is None,
            r.required is None,
    {
        AttributeDefinition { name: name.to_owned(), attr_type, description: None, required: None }
    }

    /// Set the description
    pub fn with_description(self, description: &str) -> (r: Self)
        ensures
            r.name == self.name,
            r.attr_type == self.attr_type,
            r.description matches Some(d) && d@ == description@,
            r.required == self.required,
    {
        AttributeDefinition { description: Some(description.to_owned()), ..self }
    }

    /// Set whether the attribute is required
    pub fn with_required(self, required: bool) -> (r: Self)
        ensures
            r.name == self.name,
            r.attr_type == self.attr_type,
            r.description == self.description,
            r.required == Some(required),
    {
        AttributeDefinition { required: Some(required), ..self }
    }

    /// A copy of this definition.
    pub fn copy(&self) -> (r: Self)
        ensures
            r.name@ == self.name@,
            r.attr_type == self.attr_type,
            crate::crs::opt_view(r.description) == crate::crs::opt_view(self.description),
            r.required == self.required,
    {
        AttributeDefinition {
            name: copy_string(&self.name),
            attr_type: self.attr_type,
            description: crate::crs::copy_opt_string(&self.description),
            required: self.required,
        }
    }
}

/// The type an attribute has after a further observation of type `t`: the
/// same type when it agrees with what was seen before, otherwise `String`.
pub open spec fn merge_type(existing: Option<AttributeType>, t: AttributeType) -> AttributeType {
    match existing {
        Some(e) => if e == t {
            e
        } else {
            AttributeType::String
        },
        None => t,
    }
}

/// The schema (name to type) after observing `obs` in order, starting from `m`.
pub open spec fn schema_after(
    m: Map<Seq<char>, AttributeType>,
    obs: Seq<(Seq<char>, JsonKind)>,
) -> Map<Seq<char>, AttributeType>
    decreases obs.len(),
{
    if obs.len() == 0 {
        m
    } else {
        let prev = schema_after(m, obs.drop_last());
        let (n, k) = obs.last();
        match observed_type(k) {
            None => prev,
            Some(t) => prev.insert(
                n,
                merge_type(
                    if prev.contains_key(n) {
                        Some(prev[n])
                    } else {
                        None
                    },
                    t,
                ),
            ),
        }
    }
}

/// The schema of a sequence of observations.
pub open spec fn schema_of(obs: Seq<(Seq<char>, JsonKind)>) -> Map<Seq<char>, AttributeType> {
    schema_after(Map::empty(), obs)
}

/// Observation `i` is a non-null value of attribute `n`.
pub open spec fn observes(obs: Seq<(Seq<char>, JsonKind)>, i: int, n: Seq<char>) -> bool {
    0 <= i < obs.len() && obs[i].0 == n && obs[i].1 != JsonKind::Null
}

/// Every non-null value of attribute `n` has type `t`.
pub open spec fn agreeing(obs: Seq<(Seq<char>, JsonKind)>, n: Seq<char>, t: AttributeType) -> bool {
    forall|i: int| #[trigger] observes(obs, i, n) ==> type_of_kind(obs[i].1) == t
}

/// The schema of a sequence of observations in closed form: an attribute
/// is in it exactly when some value of it is not null, and its type is the
/// type of its values when they all agree, else `String`.
pub proof fn law_schema_closed_form(obs: Seq<(Seq<char>, JsonKind)>, n: Seq<char>)
    ensures
        schema_of(obs).contains_key(n) <==> exists|i: int| observes(obs, i, n),
        forall|i: int|
            observes(obs, i, n) ==> schema_of(obs)[n] == (if agreeing(obs, n, type_of_kind(obs[i].1)) {
                type_of_kind(obs[i].1)
            } else {
                AttributeType::String
            }),
    decreases obs.len(),
{
    if obs.len() > 0 {
        let pre = obs.drop_last();
        law_schema_closed_form(pre, n);
        let (n2, k) = obs.last();
        let last = obs.len() - 1;
        assert forall|i: int| 0 <= i < pre.len() implies (observes(obs, i, n) <==> #[trigger] observes(pre, i, n))
            && obs[i] == pre[i] by {}
        if n2 != n || k == JsonKind::Null {
            assert(!observes(obs, last, n));
            assert forall|t: AttributeType| agreeing(obs, n, t) <==> agreeing(pre, n, t) by {
                if agreeing(pre, n, t) {
                    assert forall|i: int| #[trigger] observes(obs, i, n) implies type_of_kind(obs[i].1) == t by {
                        assert(observes(pre, i, n));
                    }
                }
                if agreeing(obs, n, t) {
                    assert forall|i: int| #[trigger] observes(pre, i, n) implies type_of_kind(pre[i].1) == t by {
                        assert(observes(obs, i, n));
                    }
                }
            }
            if exists|i: int| observes(obs, i, n) {
                let i = choose|i: int| observes(obs, i, n);
                assert(observes(pre, i, n));
            }
            if exists|i: int| observes(pre, i, n) {
                let i = choose|i: int| observes(pre, i, n);
                assert(observes(obs, i, n));
            }
            assert forall|i: int| observes(obs, i, n) implies schema_of(obs)[n] == (if agreeing(
                obs,
                n,
                type_of_kind(obs[i].1),
            ) {
                type_of_kind(obs[i].1)
            } else {
                AttributeType::String
            }) by {
                assert(observes(pre, i, n));
            }
        } else {
            let t = type_of_kind(k);
            assert(observes(obs, last, n));
            assert(obs[last].1 == k);
            let prev = schema_of(pre);
            if exists|i: int| observes(pre, i, n) {
                let i0 = choose|i: int| observes(pre, i, n);
                let t0 = type_of_kind(pre[i0].1);
                assert(prev[n] == (if agreeing(pre, n, t0) { t0 } else { AttributeType::String }));
                if agreeing(pre, n, t0) && t0 == t {
                    assert(schema_of(obs)[n] == t);
                    assert forall|j: int| #[trigger] observes(obs, j, n) implies type_of_kind(obs[j].1) == t by {
                        if j < last {
                            assert(observes(pre, j, n));
                        }
                    }
                    assert forall|i: int| observes(obs, i, n) implies schema_of(obs)[n] == (if agreeing(
                        obs,
                        n,
                        type_of_kind(obs[i].1),
                    ) {
                        type_of_kind(obs[i].1)
                    } else {
                        AttributeType::String
                    }) by {
                        assert(type_of_kind(obs[i].1) == t);
                    }
                } else {
                    assert(schema_of(obs)[n] == AttributeType::String);
                    assert forall|i: int| observes(obs, i, n) implies !agreeing(obs, n, #[trigger] type_of_kind(obs[i].1)) by {
                        let ti = type_of_kind(obs[i].1);
                        if agreeing(obs, n, ti) {
                            assert(observes(obs, i0, n));
                            assert(type_of_kind(obs[i0].1) == ti);
                            assert(t == ti);
                            assert(ti == t0);
                            assert forall|j: int| #[trigger] observes(pre, j, n) implies type_of_kind(pre[j].1) == t0 by {
                                assert(observes(obs, j, n));
                            }
                        }
                    }
                }
            } else {
                assert(!prev.contains_key(n));
                assert(schema_of(obs)[n] == t);
                assert forall|j: int| #[trigger] observes(obs, j, n) implies type_of_kind(obs[j].1) == t by {
                    if j < last {
                        assert(observes(pre, j, n));
                    }
                }
                assert forall|i: int| observes(obs, i, n) implies schema_of(obs)[n] == (if agreeing(
                    obs,
                    n,
                    type_of_kind(obs[i].1),
                ) {
                    type_of_kind(obs[i].1)
                } else {
                    AttributeType::String
                }) by {
                    assert(type_of_kind(obs[i].1) == t);
                }
            }
        }
    }
}

/// The name-to-type map of a list of definitions.
pub open spec fn definitions_map(defs: Seq<AttributeDefinition>) -> Map<Seq<char>, AttributeType> {
    Map::new(
        |n: Seq<char>| exists|i: int| 0 <= i < defs.len() && #[trigger] defs[i].name@ == n,
        |n: Seq<char>| defs[definition_index(defs, n)].attr_type,
    )
}

/// The position of the definition named `n`.
pub open spec fn definition_index(defs: Seq<AttributeDefinition>, n: Seq<char>) -> int {
    choose|i: int| 0 <= i < defs.len() && #[trigger] defs[i].name@ == n
}

/// Definitions in strictly increasing order of name, none with a description
/// or a `required` flag.
pub open spec fn plain_sorted_definitions(defs: Seq<AttributeDefinition>) -> bool {
    &&& forall|i: int, j: int|
        0 <= i < j < defs.len() ==> seq_less(#[trigger] defs[i].name@, #[trigger] defs[j].name@)
    &&& forall|i: int|
        0 <= i < defs.len() ==> (#[trigger] defs[i]).description is None && defs[i].required
            is None
}

/// Accumulates the attribute schema of a model: for each attribute name, the
/// type of its values, or `String` where the values disagree.
pub struct AttributeSchema {
    defs: Vec<AttributeDefinition>,
}

impl AttributeSchema {
    /// The definitions in order of name.
    pub closed spec fn definitions(&self) -> Seq<AttributeDefinition> {
        self.defs@
    }

    /// The schema as a map from attribute name to type.
    pub open spec fn schema(&self) -> Map<Seq<char>, AttributeType> {
        definitions_map(self.definitions())
    }

    /// The internal invariant.
    pub closed spec fn wf(&self) -> bool {
        plain_sorted_definitions(self.defs@)
    }

    /// An empty schema.
    pub fn new() -> (r: Self)
        ensures
            r.wf(),
            r.schema() == Map::<Seq<char>, AttributeType>::empty(),
    {
        let r = AttributeSchema { defs: Vec::new() };
        assert(r.schema() =~= Map::<Seq<char>, AttributeType>::empty());
        r
    }

    /// Records one attribute value; null values are skipped.
    pub fn observe(&mut self, name: &str, kind: JsonKind)
        requires
            old(self).wf(),
        ensures
            final(self).wf(),
            final(self).schema() == schema_after(old(self).schema(), seq![(name@, kind)]),
    {
        let ghost before = self.schema();
        proof {
            lemma_schema_after_single(before, name@, kind);
        }
        if kind == JsonKind::Null {
            return ;
        }
        let t = AttributeType::from_json_kind(kind);
        let mut i: usize = 0;
        while i < self.defs.len() && str_less(self.defs[i].name.as_str(), name)
            invariant
                i <= self.defs.len(),
                plain_sorted_definitions(self.defs@),
                self.defs@ == old(self).defs@,
                forall|k: int| 0 <= k < i ==> seq_less(#[trigger] self.defs@[k].name@, name@),
            decreases self.defs.len() - i,
        {
            i = i + 1;
        }
        if i < self.defs.len() && str_eq(self.defs[i].name.as_str(), name) {
            let existing = self.defs[i].attr_type;
            let merged = if existing == t {
                existing
            } else {
                AttributeType::String
            };
            let ghost d = self.defs@;
            proof {
                lemma_definitions_map_at(d, i as int);
            }
            let nd = AttributeDefinition {
                name: copy_string(&self.defs[i].name),
                attr_type: merged,
                description: None,
                required: None,
            };
            let ghost ndv = nd;
            self.defs.set(i, nd);
            proof {
                let d2 = self.defs@;
                assert(plain_sorted_definitions(d2)) by {
                    assert forall|a: int, b: int| 0 <= a < b < d2.len() implies seq_less(
                        #[trigger] d2[a].name@,
                        #[trigger] d2[b].name@,
                    ) by {
                        assert(d2[a].name@ == d[a].name@ && d2[b].name@ == d[b].name@);
                    }
                }
                assert(d2 =~= d.update(i as int, ndv));
                lemma_definitions_map_set(d, i as int, ndv);
            }
            return ;
        }
        proof {
            if i < self.defs.len() {
                lemma_seq_less_total(self.defs@[i as int].name@, name@);
            }
            lemma_definitions_map_absent(self.defs@, i as int, name@);
        }
        let ghost d = self.defs@;
        let nd = AttributeDefinition { name: name.to_owned(), attr_type: t, description: None, required: None };
        self.defs.insert(i, nd);
        proof {
            let d2 = self.defs@;
            assert(d2 =~= d.insert(i as int, nd));
            assert forall|a: int, b: int| 0 <= a < b < d2.len() implies seq_less(
                #[trigger] d2[a].name@,
                #[trigger] d2[b].name@,
            ) by {
                if b < i {
                    assert(d2[a] == d[a] && d2[b] == d[b]);
                } else if b == i {
                    assert(d2[a] == d[a]);
                } else if a == i {
                    assert(d2[b] == d[b - 1]);
                    if b - 1 > i {
                        assert(seq_less(d[i as int].name@, d[b - 1].name@));
                        lemma_seq_less_transitive(name@, d[i as int].name@, d[b - 1].name@);
                    }
                } else if a < i {
                    assert(d2[a] == d[a] && d2[b] == d[b - 1]);
                } else {
                    assert(d2[a] == d[a - 1] && d2[b] == d[b - 1]);
                }
            }
            assert forall|a: int| 0 <= a < d2.len() implies (#[trigger] d2[a]).description is None
                && d2[a].required is None by {
                if a < i {
                    assert(d2[a] == d[a]);
                } else if a > i {
                    assert(d2[a] == d[a - 1]);
                }
            }
            lemma_definitions_map_insert(d, i as int, nd);
        }
    }

    /// A copy of the definitions, in order of attribute name.
    pub fn definitions_copy(&self) -> (r: Vec<AttributeDefinition>)
        requires
            self.wf(),
        ensures
            plain_sorted_definitions(r@),
            definitions_map(r@) == self.schema(),
    {
        let mut r: Vec<AttributeDefinition> = Vec::new();
        let mut i: usize = 0;
        while i < self.defs.len()
            invariant
                i <= self.defs.len(),
                plain_sorted_definitions(self.defs@),
                r@.len() == i,
                forall|k: int| 0 <= k < i ==> same_definition(#[trigger] r@[k], self.defs@[k]),
            decreases self.defs.len() - i,
        {
            let d = AttributeDefinition::new(self.defs[i].name.as_str(), self.defs[i].attr_type);
            r.push(d);
            i = i + 1;
        }
        proof {
            lemma_same_definitions(self.defs@, r@);
        }
        r
    }

    /// The definitions, in order of attribute name.
    pub fn into_definitions(self) -> (r: Vec<AttributeDefinition>)
        requires
            self.wf(),
        ensures
            r@ == self.definitions(),
            plain_sorted_definitions(r@),
    {
        self.defs
    }
}

/// Observing a single value.
pub proof fn lemma_schema_after_single(m: Map<Seq<char>, AttributeType>, n: Seq<char>, k: JsonKind)
    ensures
        schema_after(m, seq![(n, k)]) == match observed_type(k) {
            None => m,
            Some(t) => m.insert(
                n,
                merge_type(
                    if m.contains_key(n) {
                        Some(m[n])
                    } else {
                        None
                    },
                    t,
                ),
            ),
        },
{
    let obs = seq![(n, k)];
    assert(obs.drop_last() =~= Seq::<(Seq<char>, JsonKind)>::empty());
    assert(obs.last() == (n, k));
    assert(schema_after(m, obs.drop_last()) == m);
}

/// Two definitions with the same name, type and no extra fields.
pub open spec fn same_definition(a: AttributeDefinition, b: AttributeDefinition) -> bool {
    a.name@ == b.name@ && a.attr_type == b.attr_type && a.description == b.description
        && a.required == b.required
}

proof fn lemma_same_definitions(a: Seq<AttributeDefinition>, b: Seq<AttributeDefinition>)
    requires
        plain_sorted_definitions(a),
        a.len() == b.len(),
        forall|k: int| 0 <= k < a.len() ==> same_definition(#[trigger] b[k], a[k]),
    ensures
        plain_sorted_definitions(b),
        definitions_map(b) == definitions_map(a),
{
    assert forall|i: int, j: int| 0 <= i < j < b.len() implies seq_less(
        #[trigger] b[i].name@,
        #[trigger] b[j].name@,
    ) by {
        assert(same_definition(b[i], a[i]) && same_definition(b[j], a[j]));
    }
    assert forall|i: int| 0 <= i < b.len() implies (#[trigger] b[i]).description is None
        && b[i].required is None by {
        assert(same_definition(b[i], a[i]));
    }
    let ma = definitions_map(a);
    let mb = definitions_map(b);
    assert forall|n: Seq<char>| mb.dom().contains(n) <==> ma.dom().contains(n) by {
        if mb.dom().contains(n) {
            let k = choose|k: int| 0 <= k < b.len() && #[trigger] b[k].name@ == n;
            assert(same_definition(b[k], a[k]));
            assert(a[k].name@ == n);
        }
        if ma.dom().contains(n) {
            let k = choose|k: int| 0 <= k < a.len() && #[trigger] a[k].name@ == n;
            assert(same_definition(b[k], a[k]));
            assert(b[k].name@ == n);
        }
    }
    assert forall|n: Seq<char>| mb.dom().contains(n) implies mb[n] == ma[n] by {
        let k = choose|k: int| 0 <= k < b.len() && #[trigger] b[k].name@ == n;
        assert(same_definition(b[k], a[k]));
        lemma_definitions_map_at(b, k);
        lemma_definitions_map_at(a, k);
    }
    assert(mb =~= ma);
}

proof fn lemma_unique_name(d: Seq<AttributeDefinition>, i: int, j: int)
    requires
        plain_sorted_definitions(d),
        0 <= i < d.len(),
        0 <= j < d.len(),
        d[i].name@ == d[j].name@,
    ensures
        i == j,
{
    if i < j {
        assert(seq_less(d[i].name@, d[j].name@));
        crate::sorted::lemma_seq_less_irreflexive(d[i].name@);
    } else if j < i {
        assert(seq_less(d[j].name@, d[i].name@));
        crate::sorted::lemma_seq_less_irreflexive(d[i].name@);
    }
}

proof fn lemma_definitions_map_at(d: Seq<AttributeDefinition>, i: int)
    requires
        plain_sorted_definitions(d),
        0 <= i < d.len(),
    ensures
        definitions_map(d).contains_key(d[i].name@),
        definitions_map(d)[d[i].name@] == d[i].attr_type,
{
    let n = d[i].name@;
    assert(definitions_map(d).dom().contains(n));
    assert(exists|j: int| 0 <= j < d.len() && #[trigger] d[j].name@ == n);
    let k = definition_index(d, n);
    assert(0 <= k < d.len() && d[k].name@ == n);
    lemma_unique_name(d, i, k);
}

proof fn lemma_definitions_map_set(d: Seq<AttributeDefinition>, i: int, nd: AttributeDefinition)
    requires
        plain_sorted_definitions(d),
        0 <= i < d.len(),
        nd.name@ == d[i].name@,
        nd.description is None,
        nd.required is None,
    ensures
        definitions_map(d.update(i, nd)) == definitions_map(d).insert(d[i].name@, nd.attr_type),
{
    let t = nd.attr_type;
    let d2 = d.update(i, nd);
    assert(plain_sorted_definitions(d2)) by {
        assert forall|a: int, b: int| 0 <= a < b < d2.len() implies seq_less(
            #[trigger] d2[a].name@,
            #[trigger] d2[b].name@,
        ) by {
            assert(d2[a].name@ == d[a].name@ && d2[b].name@ == d[b].name@);
        }
    }
    let m1 = definitions_map(d2);
    let m2 = definitions_map(d).insert(d[i].name@, t);
    assert forall|n: Seq<char>| m1.dom().contains(n) <==> m2.dom().contains(n) by {
        if m1.dom().contains(n) {
            let k = choose|k: int| 0 <= k < d2.len() && #[trigger] d2[k].name@ == n;
            assert(d[k].name@ == n);
        }
        if definitions_map(d).dom().contains(n) {
            let k = choose|k: int| 0 <= k < d.len() && #[trigger] d[k].name@ == n;
            assert(d2[k].name@ == n);
        }
        if n == d[i].name@ {
            assert(d2[i].name@ == n);
        }
    }
    assert forall|n: Seq<char>| m1.dom().contains(n) implies m1[n] == m2[n] by {
        let k = choose|k: int| 0 <= k < d2.len() && #[trigger] d2[k].name@ == n;
        lemma_definitions_map_at(d2, k);
        if k == i {
        } else {
            assert(d2[k] == d[k]);
            lemma_definitions_map_at(d, k);
            if n == d[i].name@ {
                lemma_unique_name(d, i, k);
            }
        }
    }
    assert(m1 =~= m2);
}

proof fn lemma_definitions_map_absent(d: Seq<AttributeDefinition>, i: int, name: Seq<char>)
    requires
        plain_sorted_definitions(d),
        0 <= i <= d.len(),
        forall|k: int| 0 <= k < i ==> seq_less(#[trigger] d[k].name@, name),
        i < d.len() ==> seq_less(name, d[i].name@),
    ensures
        !definitions_map(d).contains_key(name),
{
    if definitions_map(d).contains_key(name) {
        let k = choose|k: int| 0 <= k < d.len() && #[trigger] d[k].name@ == name;
        if k < i {
            crate::sorted::lemma_seq_less_irreflexive(name);
        } else if k == i {
            crate::sorted::lemma_seq_less_irreflexive(name);
        } else {
            assert(seq_less(d[i].name@, d[k].name@));
            lemma_seq_less_transitive(name, d[i].name@, name);
            crate::sorted::lemma_seq_less_irreflexive(name);
        }
    }
}

proof fn lemma_definitions_map_insert(d: Seq<AttributeDefinition>, i: int, nd: AttributeDefinition)
    requires
        plain_sorted_definitions(d.insert(i, nd)),
        plain_sorted_definitions(d),
        0 <= i <= d.len(),
        !definitions_map(d).contains_key(nd.name@),
    ensures
        definitions_map(d.insert(i, nd)) == definitions_map(d).insert(nd.name@, nd.attr_type),
{
    let d2 = d.insert(i, nd);
    let m1 = definitions_map(d2);
    let m2 = definitions_map(d).insert(nd.name@, nd.attr_type);
    assert forall|n: Seq<char>| m1.dom().contains(n) <==> m2.dom().contains(n) by {
        if m1.dom().contains(n) {
            let k = choose|k: int| 0 <= k < d2.len() && #[trigger] d2[k].name@ == n;
            if k < i {
                assert(d[k].name@ == n);
            } else if k > i {
                assert(d[k - 1].name@ == n);
            }
        }
        if definitions_map(d).dom().contains(n) {
            let k = choose|k: int| 0 <= k < d.len() && #[trigger] d[k].name@ == n;
            if k < i {
                assert(d2[k].name@ == n);
            } else {
                assert(d2[k + 1].name@ == n);
            }
        }
        if n == nd.name@ {
            assert(d2[i].name@ == n);
        }
    }
    assert forall|n: Seq<char>| m1.dom().contains(n) implies m1[n] == m2[n] by {
        let k = choose|k: int| 0 <= k < d2.len() && #[trigger] d2[k].name@ == n;
        lemma_definitions_map_at(d2, k);
        if k < i {
            assert(d2[k] == d[k]);
            lemma_definitions_map_at(d, k);
        } else if k > i {
            assert(d2[k] == d[k - 1]);
            lemma_definitions_map_at(d, k - 1);
        }
    }
    assert(m1 =~= m2);
}

} // verus!
