//! JSON values as the service carries them: request bodies, stored
//! payloads and reply bodies.

use serde_json::Value;
use vstd::prelude::*;

verus! {

/// A JSON number, in the three forms a JSON parser keeps apart.
#[derive(Clone, Copy, Debug)]
pub enum JsonNumber {
    /// A non-negative integer.
    PosInt(u64),
    /// A negative integer.
    NegInt(i64),
    /// A finite double, held as its IEEE-754 bit pattern.
    Float(u64),
}

/// A JSON value. Object members keep the order in which they were given;
/// equality (`json_same`) treats an object as a map from names to values,
/// so that order does not matter. Values read by `parse_json` are
/// `json_well_formed`: in particular no object repeats a name.
#[derive(Debug)]
pub enum Json {
    Null,
    Bool(bool),
    Number(JsonNumber),
    String(String),
    Array(Vec<Json>),
    Object(Vec<(String, Json)>),
}

/// The two bit patterns of a double zero (positive and negative).
pub open spec fn is_zero_bits(bits: u64) -> bool {
    bits == 0u64 || bits == 0x8000_0000_0000_0000u64
}

/// Equality of two finite doubles given by their bits: the same pattern,
/// or both zeros.
pub open spec fn float_bits_equal(a: u64, b: u64) -> bool {
    a == b || (is_zero_bits(a) && is_zero_bits(b))
}

/// When two numbers are the same JSON number: same form and equal value.
pub open spec fn number_same(a: JsonNumber, b: JsonNumber) -> bool {
    match (a, b) {
        (JsonNumber::PosInt(x), JsonNumber::PosInt(y)) => x == y,
        (JsonNumber::NegInt(x), JsonNumber::NegInt(y)) => x == y,
        (JsonNumber::Float(x), JsonNumber::Float(y)) => float_bits_equal(x, y),
        _ => false,
    }
}

/// Whether member `i` is the first member of `members` with its name.
pub open spec fn first_with_name(members: Seq<(String, Json)>, i: int) -> bool {
    &&& 0 <= i < members.len()
    &&& forall|k: int| 0 <= k < i ==> (#[trigger] members[k]).0@ != members[i].0@
}

/// Whether some member of `members` is named `name`.
pub open spec fn has_name(members: Seq<(String, Json)>, name: Seq<char>) -> bool {
    exists|k: int| 0 <= k < members.len() && (#[trigger] members[k]).0@ == name
}

/// When two JSON values are equal: same kind, equal scalars, arrays equal
/// item by item, and objects equal as maps from names to values: the same
/// names, and for each name equal values. Member order does not matter;
/// a name given twice stands for its first member, as `field` reads it
/// (parsed values never give a name twice).
pub open spec fn json_same(a: Json, b: Json) -> bool
    decreases a,
{
    match a {
        Json::Null => b is Null,
        Json::Bool(x) => b matches Json::Bool(y) && x == y,
        Json::Number(x) => b matches Json::Number(y) && number_same(x, y),
        Json::String(x) => b matches Json::String(y) && x@ == y@,
        Json::Array(xs) => b matches Json::Array(ys) && xs@.len() == ys@.len() && forall|i: int|
            0 <= i < xs@.len() ==> json_same(#[trigger] xs@[i], ys@[i]),
        Json::Object(xs) => match b {
            Json::Object(ys) => {
                &&& forall|i: int| #[trigger]
                    first_with_name(xs@, i) ==> exists|j: int| #[trigger]
                        first_with_name(ys@, j) && ys@[j].0@ == xs@[i].0@ && json_same(
                            xs@[i].1,
                            ys@[j].1,
                        )
                &&& forall|j: int| 0 <= j < ys@.len() ==> #[trigger] has_name(xs@, ys@[j].0@)
            },
            _ => false,
        },
    }
}

/// Equality of two objects' members, as `json_same` states it for objects.
pub open spec fn objects_same(xs: Seq<(String, Json)>, ys: Seq<(String, Json)>) -> bool {
    &&& forall|i: int| #[trigger]
        first_with_name(xs, i) ==> exists|j: int| #[trigger]
            first_with_name(ys, j) && ys[j].0@ == xs[i].0@ && json_same(xs[i].1, ys[j].1)
    &&& forall|j: int| 0 <= j < ys.len() ==> #[trigger] has_name(xs, ys[j].0@)
}

/// Two objects are equal exactly when their members meet `objects_same`.
proof fn lemma_objects_same(a: Json, b: Json)
    requires
        a is Object,
        b is Object,
    ensures
        json_same(a, b) == objects_same(a->Object_0@, b->Object_0@),
{
}

/// Whether two numbers are the same JSON number.
pub fn number_equal(a: &JsonNumber, b: &JsonNumber) -> (r: bool)
    ensures
        r == number_same(*a, *b),
{
    match (a, b) {
        (JsonNumber::PosInt(x), JsonNumber::PosInt(y)) => *x == *y,
        (JsonNumber::NegInt(x), JsonNumber::NegInt(y)) => *x == *y,
        (JsonNumber::Float(x), JsonNumber::Float(y)) => *x == *y || ((*x == 0u64 || *x
            == 0x8000_0000_0000_0000u64) && (*y == 0u64 || *y == 0x8000_0000_0000_0000u64)),
        _ => false,
    }
}

/// Whether two JSON values are equal, in the sense of `json_same`.
pub fn json_equal(a: &Json, b: &Json) -> (r: bool)
    ensures
        r == json_same(*a, *b),
    decreases a,
{
    match (a, b) {
        (Json::Null, Json::Null) => true,
        (Json::Bool(x), Json::Bool(y)) => *x == *y,
        (Json::Number(x), Json::Number(y)) => number_equal(x, y),
        (Json::String(x), Json::String(y)) => *x == *y,
        (Json::Array(xs), Json::Array(ys)) => {
            if xs.len() != ys.len() {
                return false;
            }
            let mut i: usize = 0;
            while i < xs.len()
                invariant
                    xs@.len() == ys@.len(),
                    i <= xs@.len(),
                    *a == Json::Array(*xs),
                    *b == Json::Array(*ys),
                    forall|j: int| 0 <= j < i ==> json_same(#[trigger] xs@[j], ys@[j]),
                decreases xs@.len() - i,
            {
                assert(decreases_to!(*a => (*a)->Array_0));
                assert(decreases_to!(*xs => xs@));
                assert(decreases_to!(xs@ => xs@[i as int]));
                if !json_equal(&xs[i], &ys[i]) {
                    return false;
                }
                i = i + 1;
            }
            true
        },
        (Json::Object(xs), Json::Object(ys)) => {
            let mut i: usize = 0;
            while i < xs.len()
                invariant
                    i <= xs@.len(),
                    *a == Json::Object(*xs),
                    *b == Json::Object(*ys),
                    forall|i2: int| #[trigger]
                        first_with_name(xs@, i2) && i2 < i ==> exists|j: int| #[trigger]
                            first_with_name(ys@, j) && ys@[j].0@ == xs@[i2].0@ && json_same(
                                xs@[i2].1,
                                ys@[j].1,
                            ),
                decreases xs@.len() - i,
            {
                let first = member_position(xs, &xs[i].0);
                if first == Some(i) {
                    match member_position(ys, &xs[i].0) {
                        None => {
                            assert(!json_same(*a, *b)) by {
                                lemma_objects_same(*a, *b);
                                assert(first_with_name(xs@, i as int));
                                assert forall|j0: int| #[trigger] first_with_name(ys@, j0) implies ys@[j0].0@
                                    != xs@[i as int].0@ by {
                                    if ys@[j0].0@ == xs@[i as int].0@ {
                                        assert(has_name(ys@, xs@[i as int].0@));
                                    }
                                }
                            }
                            return false;
                        },
                        Some(j) => {
                            assert(decreases_to!(*a => (*a)->Object_0));
                            assert(decreases_to!(*xs => xs@));
                            assert(decreases_to!(xs@ => xs@[i as int]));
                            assert(decreases_to!(xs@[i as int] => xs@[i as int].1));
                            if !json_equal(&xs[i].1, &ys[j].1) {
                                assert forall|j2: int|
                                    #[trigger] first_with_name(ys@, j2) && ys@[j2].0@ == xs@[i as int].0@
                                    implies j2 == j by {
                                    if j2 < j {
                                        assert(ys@[j2].0@ != ys@[j as int].0@);
                                    }
                                    if j < j2 {
                                        assert(ys@[j as int].0@ != ys@[j2].0@);
                                    }
                                }
                                assert(first_with_name(xs@, i as int));
                                proof {
                                    lemma_objects_same(*a, *b);
                                }
                                return false;
                            }
                        },
                    }
                } else {
                    assert(!first_with_name(xs@, i as int));
                }
                i = i + 1;
            }
            let mut j: usize = 0;
            while j < ys.len()
                invariant
                    j <= ys@.len(),
                    *a == Json::Object(*xs),
                    *b == Json::Object(*ys),
                    forall|i2: int| #[trigger]
                        first_with_name(xs@, i2) ==> exists|j: int| #[trigger]
                            first_with_name(ys@, j) && ys@[j].0@ == xs@[i2].0@ && json_same(
                                xs@[i2].1,
                                ys@[j].1,
                            ),
                    forall|j2: int| 0 <= j2 < j ==> #[trigger] has_name(xs@, ys@[j2].0@),
                decreases ys@.len() - j,
            {
                if member_position(xs, &ys[j].0).is_none() {
                    assert(!json_same(*a, *b)) by {
                        lemma_objects_same(*a, *b);
                        if json_same(*a, *b) {
                            assert(has_name(xs@, ys@[j as int].0@));
                        }
                    }
                    return false;
                }
                j = j + 1;
            }
            proof {
                lemma_objects_same(*a, *b);
            }
            true
        },
        _ => false,
    }
}


/// The first member with the same name as member `i`.
proof fn lemma_first_occurrence(ms: Seq<(String, Json)>, i: int) -> (k: int)
    requires
        0 <= i < ms.len(),
    ensures
        first_with_name(ms, k),
        ms[k].0@ == ms[i].0@,
        k <= i,
    decreases i,
{
    if first_with_name(ms, i) {
        i
    } else {
        let k0 = choose|k0: int| 0 <= k0 < i && (#[trigger] ms[k0]).0@ == ms[i].0@;
        lemma_first_occurrence(ms, k0)
    }
}

/// Two first members with the same name are the same member.
proof fn lemma_first_occurrence_unique(ms: Seq<(String, Json)>, j1: int, j2: int)
    requires
        first_with_name(ms, j1),
        first_with_name(ms, j2),
        ms[j1].0@ == ms[j2].0@,
    ensures
        j1 == j2,
{
    if j1 < j2 {
        assert(ms[j1].0@ != ms[j2].0@);
    } else if j2 < j1 {
        assert(ms[j2].0@ != ms[j1].0@);
    }
}

/// Every JSON value equals itself.
pub proof fn lemma_json_same_reflexive(a: Json)
    ensures
        json_same(a, a),
    decreases a,
{
    match a {
        Json::Array(xs) => {
            assert forall|i: int| 0 <= i < xs@.len() implies json_same(
                #[trigger] xs@[i],
                xs@[i],
            ) by {
                assert(decreases_to!(a => a->Array_0));
                assert(decreases_to!(xs => xs@));
                assert(decreases_to!(xs@ => xs@[i]));
                lemma_json_same_reflexive(xs@[i]);
            }
        },
        Json::Object(xs) => {
            lemma_objects_same(a, a);
            assert forall|i: int| #[trigger] first_with_name(xs@, i) implies exists|j: int| #[trigger]
                first_with_name(xs@, j) && xs@[j].0@ == xs@[i].0@ && json_same(xs@[i].1, xs@[j].1) by {
                assert(decreases_to!(a => a->Object_0));
                assert(decreases_to!(xs => xs@));
                assert(decreases_to!(xs@ => xs@[i]));
                assert(decreases_to!(xs@[i] => xs@[i].1));
                lemma_json_same_reflexive(xs@[i].1);
                assert(first_with_name(xs@, i));
            }
            assert forall|j: int| 0 <= j < xs@.len() implies #[trigger] has_name(xs@, xs@[j].0@) by {
                assert(xs@[j].0@ == xs@[j].0@);
            }
        },
        _ => {},
    }
}

/// Equality of JSON values does not depend on the order of the operands.
pub proof fn lemma_json_same_symmetric(a: Json, b: Json)
    requires
        json_same(a, b),
    ensures
        json_same(b, a),
    decreases a,
{
    match a {
        Json::Array(xs) => {
            let ys = b->Array_0;
            assert forall|i: int| 0 <= i < ys@.len() implies json_same(
                #[trigger] ys@[i],
                xs@[i],
            ) by {
                assert(json_same(xs@[i], ys@[i]));
                assert(decreases_to!(a => a->Array_0));
                assert(decreases_to!(xs => xs@));
                assert(decreases_to!(xs@ => xs@[i]));
                lemma_json_same_symmetric(xs@[i], ys@[i]);
            }
        },
        Json::Object(xs) => {
            let ys = b->Object_0;
            lemma_objects_same(a, b);
            lemma_objects_same(b, a);
            assert forall|j: int| #[trigger] first_with_name(ys@, j) implies exists|i: int| #[trigger]
                first_with_name(xs@, i) && xs@[i].0@ == ys@[j].0@ && json_same(ys@[j].1, xs@[i].1) by {
                assert(has_name(xs@, ys@[j].0@));
                let k = choose|k: int| 0 <= k < xs@.len() && (#[trigger] xs@[k]).0@ == ys@[j].0@;
                let i0 = lemma_first_occurrence(xs@, k);
                let j1 = choose|j1: int| #[trigger]
                    first_with_name(ys@, j1) && ys@[j1].0@ == xs@[i0].0@ && json_same(
                        xs@[i0].1,
                        ys@[j1].1,
                    );
                lemma_first_occurrence_unique(ys@, j, j1);
                assert(decreases_to!(a => a->Object_0));
                assert(decreases_to!(xs => xs@));
                assert(decreases_to!(xs@ => xs@[i0]));
                assert(decreases_to!(xs@[i0] => xs@[i0].1));
                lemma_json_same_symmetric(xs@[i0].1, ys@[j].1);
            }
            assert forall|i: int| 0 <= i < xs@.len() implies #[trigger] has_name(ys@, xs@[i].0@) by {
                let i0 = lemma_first_occurrence(xs@, i);
                let j1 = choose|j1: int| #[trigger]
                    first_with_name(ys@, j1) && ys@[j1].0@ == xs@[i0].0@ && json_same(
                        xs@[i0].1,
                        ys@[j1].1,
                    );
                assert(ys@[j1].0@ == xs@[i].0@);
            }
        },
        _ => {},
    }
}

/// Two values equal to a third are equal to each other.
pub proof fn lemma_json_same_transitive(a: Json, b: Json, c: Json)
    requires
        json_same(a, b),
        json_same(b, c),
    ensures
        json_same(a, c),
    decreases a,
{
    match a {
        Json::Array(xs) => {
            let ys = b->Array_0;
            let zs = c->Array_0;
            assert forall|i: int| 0 <= i < xs@.len() implies json_same(
                #[trigger] xs@[i],
                zs@[i],
            ) by {
                assert(json_same(xs@[i], ys@[i]));
                assert(json_same(ys@[i], zs@[i]));
                assert(decreases_to!(a => a->Array_0));
                assert(decreases_to!(xs => xs@));
                assert(decreases_to!(xs@ => xs@[i]));
                lemma_json_same_transitive(xs@[i], ys@[i], zs@[i]);
            }
        },
        Json::Object(xs) => {
            let ys = b->Object_0;
            let zs = c->Object_0;
            lemma_objects_same(a, b);
            lemma_objects_same(b, c);
            lemma_objects_same(a, c);
            assert forall|i: int| #[trigger] first_with_name(xs@, i) implies exists|k: int| #[trigger]
                first_with_name(zs@, k) && zs@[k].0@ == xs@[i].0@ && json_same(xs@[i].1, zs@[k].1) by {
                let j = choose|j: int| #[trigger]
                    first_with_name(ys@, j) && ys@[j].0@ == xs@[i].0@ && json_same(
                        xs@[i].1,
                        ys@[j].1,
                    );
                let k = choose|k: int| #[trigger]
                    first_with_name(zs@, k) && zs@[k].0@ == ys@[j].0@ && json_same(
                        ys@[j].1,
                        zs@[k].1,
                    );
                assert(decreases_to!(a => a->Object_0));
                assert(decreases_to!(xs => xs@));
                assert(decreases_to!(xs@ => xs@[i]));
                assert(decreases_to!(xs@[i] => xs@[i].1));
                lemma_json_same_transitive(xs@[i].1, ys@[j].1, zs@[k].1);
            }
            assert forall|k: int| 0 <= k < zs@.len() implies #[trigger] has_name(xs@, zs@[k].0@) by {
                assert(has_name(ys@, zs@[k].0@));
                let j = choose|j: int| 0 <= j < ys@.len() && (#[trigger] ys@[j]).0@ == zs@[k].0@;
                assert(has_name(xs@, ys@[j].0@));
                let i = choose|i: int| 0 <= i < xs@.len() && (#[trigger] xs@[i]).0@ == ys@[j].0@;
                assert(xs@[i].0@ == zs@[k].0@);
            }
        },
        _ => {},
    }
}

/// Two booleans are the same JSON value exactly when they hold the same
/// truth value: `true` never equals `false`.
pub proof fn lemma_bools_compare_by_value(x: bool, y: bool)
    ensures
        json_same(Json::Bool(x), Json::Bool(y)) <==> x == y,
{
}

/// Two strings are the same JSON value exactly when they hold the same
/// characters.
pub proof fn lemma_strings_compare_by_text(x: String, y: String)
    ensures
        json_same(Json::String(x), Json::String(y)) <==> x@ == y@,
{
}

/// Integers compare by value within their form, and an integer of one
/// form never equals a number of another: `3` is not `-3`, nor `3.0`.
pub proof fn lemma_integers_compare_by_value(x: u64, y: u64, m: i64, n: i64, f: u64)
    ensures
        json_same(Json::Number(JsonNumber::PosInt(x)), Json::Number(JsonNumber::PosInt(y))) <==> x
            == y,
        json_same(Json::Number(JsonNumber::NegInt(m)), Json::Number(JsonNumber::NegInt(n))) <==> m
            == n,
        !json_same(Json::Number(JsonNumber::PosInt(x)), Json::Number(JsonNumber::NegInt(m))),
        !json_same(Json::Number(JsonNumber::NegInt(m)), Json::Number(JsonNumber::PosInt(x))),
        !json_same(Json::Number(JsonNumber::PosInt(x)), Json::Number(JsonNumber::Float(f))),
        !json_same(Json::Number(JsonNumber::Float(f)), Json::Number(JsonNumber::PosInt(x))),
        !json_same(Json::Number(JsonNumber::NegInt(m)), Json::Number(JsonNumber::Float(f))),
        !json_same(Json::Number(JsonNumber::Float(f)), Json::Number(JsonNumber::NegInt(m))),
        !number_same(JsonNumber::PosInt(x), JsonNumber::NegInt(m)),
        !number_same(JsonNumber::NegInt(m), JsonNumber::PosInt(x)),
        number_same(JsonNumber::PosInt(x), JsonNumber::PosInt(y)) <==> x == y,
        number_same(JsonNumber::NegInt(m), JsonNumber::NegInt(n)) <==> m == n,
{
}

/// Two doubles are the same JSON number exactly when their bits agree,
/// or both are zeros (`0.0` and `-0.0`).
pub proof fn lemma_floats_compare_by_value(x: u64, y: u64)
    ensures
        json_same(Json::Number(JsonNumber::Float(x)), Json::Number(JsonNumber::Float(y))) <==> (x
            == y || ((x == 0 || x == 0x8000_0000_0000_0000u64) && (y == 0 || y
            == 0x8000_0000_0000_0000u64))),
{
}

/// Values of different kinds are never equal: `null` equals only `null`,
/// a boolean only a boolean, a number only a number, a string only a
/// string, an array only an array, an object only an object.
pub proof fn lemma_equal_values_have_one_kind(a: Json, b: Json)
    requires
        json_same(a, b),
    ensures
        a is Null <==> b is Null,
        a is Bool <==> b is Bool,
        a is Number <==> b is Number,
        a is String <==> b is String,
        a is Array <==> b is Array,
        a is Object <==> b is Object,
{
    lemma_json_same_symmetric(a, b);
}

/// Equal arrays have the same length and equal items at each position, and
/// arrays with equal items at each position are equal.
pub proof fn lemma_arrays_compare_item_by_item(xs: Vec<Json>, ys: Vec<Json>)
    ensures
        json_same(Json::Array(xs), Json::Array(ys)) ==> xs@.len() == ys@.len(),
        json_same(Json::Array(xs), Json::Array(ys)) ==> forall|i: int|
            0 <= i < xs@.len() ==> json_same(#[trigger] xs@[i], ys@[i]),
        (xs@.len() == ys@.len() && forall|i: int|
            0 <= i < xs@.len() ==> json_same(#[trigger] xs@[i], ys@[i])) ==> json_same(
            Json::Array(xs),
            Json::Array(ys),
        ),
{
    let a = Json::Array(xs);
    let b = Json::Array(ys);
    assert(a->Array_0 == xs);
}

/// Whether no two members of `members` share a name.
pub open spec fn names_unique(members: Seq<(String, Json)>) -> bool {
    forall|i: int, j: int|
        0 <= i < j < members.len() ==> (#[trigger] members[i]).0@ != (#[trigger] members[j]).0@
}

/// Whether every member of each list is a member of the other.
pub open spec fn same_members(xs: Seq<(String, Json)>, ys: Seq<(String, Json)>) -> bool {
    &&& forall|i: int| 0 <= i < xs.len() ==> exists|j: int| 0 <= j < ys.len() && ys[j] == #[trigger] xs[i]
    &&& forall|j: int| 0 <= j < ys.len() ==> exists|i: int| 0 <= i < xs.len() && xs[i] == #[trigger] ys[j]
}

/// The order of an object's members does not matter: two objects with the
/// same members (each name once), listed in any order, are equal; so
/// `{"a": 1, "b": 2}` equals `{"b": 2, "a": 1}`.
pub proof fn lemma_member_order_ignored(xs: Vec<(String, Json)>, ys: Vec<(String, Json)>)
    requires
        names_unique(xs@),
        names_unique(ys@),
        same_members(xs@, ys@),
    ensures
        json_same(Json::Object(xs), Json::Object(ys)),
{
    let a = Json::Object(xs);
    let b = Json::Object(ys);
    lemma_objects_same(a, b);
    assert forall|i: int| #[trigger] first_with_name(xs@, i) implies exists|j: int| #[trigger]
        first_with_name(ys@, j) && ys@[j].0@ == xs@[i].0@ && json_same(xs@[i].1, ys@[j].1) by {
        assert(exists|j: int| 0 <= j < ys@.len() && ys@[j] == xs@[i]);
        let j = choose|j: int| 0 <= j < ys@.len() && ys@[j] == xs@[i];
        lemma_json_same_reflexive(xs@[i].1);
        assert forall|k: int| 0 <= k < j implies (#[trigger] ys@[k]).0@ != ys@[j].0@ by {
            assert(names_unique(ys@));
        }
        assert(first_with_name(ys@, j));
    }
    assert forall|j: int| 0 <= j < ys@.len() implies #[trigger] has_name(xs@, ys@[j].0@) by {
        assert(same_members(xs@, ys@));
        let y = ys@[j];
        assert(exists|i: int| 0 <= i < xs@.len() && xs@[i] == y);
        let i = choose|i: int| 0 <= i < xs@.len() && xs@[i] == y;
        assert(xs@[i].0@ == ys@[j].0@);
    }
}

/// The value of the first member named `name`, if any.
pub open spec fn member_value(members: Seq<(String, Json)>, name: Seq<char>) -> Option<Json>
    decreases members.len(),
{
    if members.len() == 0 {
        None
    } else if members[0].0@ == name {
        Some(members[0].1)
    } else {
        member_value(members.drop_first(), name)
    }
}

/// The member `name` of an object; nothing for any other kind of value.
pub open spec fn field(value: Json, name: Seq<char>) -> Option<Json> {
    match value {
        Json::Object(members) => member_value(members@, name),
        _ => None,
    }
}

/// Position of the first member named `name`, if any.
fn member_position(members: &Vec<(String, Json)>, name: &String) -> (r: Option<usize>)
    ensures
        match r {
            Some(i) => {
                &&& first_with_name(members@, i as int)
                &&& members@[i as int].0@ == name@
                &&& member_value(members@, name@) == Some(members@[i as int].1)
            },
            None => !has_name(members@, name@) && member_value(members@, name@) is None,
        },
{
    let mut i: usize = 0;
    assert(members@.subrange(0, members@.len() as int) =~= members@);
    while i < members.len()
        invariant
            i <= members@.len(),
            member_value(members@, name@) == member_value(
                members@.subrange(i as int, members@.len() as int),
                name@,
            ),
            forall|k: int| 0 <= k < i ==> (#[trigger] members@[k]).0@ != name@,
        decreases members@.len() - i,
    {
        if members[i].0 == *name {
            return Some(i);
        }
        assert(members@.subrange(i as int, members@.len() as int).drop_first() =~= members@.subrange(
            i + 1,
            members@.len() as int,
        ));
        i = i + 1;
    }
    None
}

impl Json {
    /// The member `name` of an object, as `serde_json::Value::get` gives it.
    pub fn get(&self, name: &String) -> (r: Option<&Json>)
        ensures
            match r {
                Some(v) => field(*self, name@) == Some(*v),
                None => field(*self, name@) is None,
            },
    {
        match self {
            Json::Object(members) => match member_position(members, name) {
                Some(i) => Some(&members[i].1),
                None => None,
            },
            _ => None,
        }
    }

    /// Takes the member `name` out of an object, as
    /// `serde_json::Map::remove` does on `Value::as_object_mut`.
    pub fn take(self, name: &String) -> (r: Option<Json>)
        ensures
            r == field(self, name@),
    {
        match self {
            Json::Object(members) => match member_position(&members, name) {
                Some(i) => {
                    let mut members = members;
                    let (_, value) = members.remove(i);
                    Some(value)
                },
                None => None,
            },
            _ => None,
        }
    }
}



/// A finite double's bit pattern: its exponent bits are not all ones.
pub open spec fn is_finite_bits(bits: u64) -> bool {
    (bits / 0x10_0000_0000_0000u64) % 0x800u64 != 0x7ffu64
}

/// The forms a JSON parser gives numbers: negative integers only as
/// `NegInt`, and only finite doubles.
pub open spec fn number_well_formed(n: JsonNumber) -> bool {
    match n {
        JsonNumber::PosInt(_) => true,
        JsonNumber::NegInt(i) => i < 0,
        JsonNumber::Float(bits) => is_finite_bits(bits),
    }
}

/// A value as a JSON parser gives it: well-formed numbers, and objects
/// that hold each name once, all the way down.
pub open spec fn json_well_formed(value: Json) -> bool
    decreases value,
{
    match value {
        Json::Number(n) => number_well_formed(n),
        Json::Array(xs) => forall|i: int| 0 <= i < xs@.len() ==> json_well_formed(#[trigger] xs@[i]),
        Json::Object(xs) => names_unique(xs@) && forall|i: int|
            0 <= i < xs@.len() ==> json_well_formed((#[trigger] xs@[i]).1),
        _ => true,
    }
}

/// The JSON value that `serde_json::from_slice::<serde_json::Value>` reads
/// from `bytes`, in the library's form (`None` when it refuses them).
pub uninterp spec fn json_parse(bytes: Seq<u8>) -> Option<Json>;

#[verifier::external_type_specification]
#[verifier::external_body]
pub struct ExJsonValue(Value);

/// Moves a `serde_json::Value` into the library's form, variant for
/// variant: numbers by the form `serde_json::Number` holds (`as_u64`, then
/// `as_i64`, else the double's bits), objects member for member in the
/// map's order. Only `parse_json` calls it, on the value it has just read.
#[verifier::external_body]
fn json_from_value(value: Value) -> Json {
    match value {
        Value::Null => Json::Null,
        Value::Bool(b) => Json::Bool(b),
        Value::Number(n) => Json::Number(match (n.as_u64(), n.as_i64()) {
            (Some(u), _) => JsonNumber::PosInt(u),
            (None, Some(i)) => JsonNumber::NegInt(i),
            _ => JsonNumber::Float(n.as_f64().map(|x| x.to_bits()).unwrap_or(0)),
        }),
        Value::String(s) => Json::String(s),
        Value::Array(items) => Json::Array(items.into_iter().map(json_from_value).collect()),
        Value::Object(members) => Json::Object(
            members.into_iter().map(|(k, v)| (k, json_from_value(v))).collect(),
        ),
    }
}

/// Calls `serde_json::from_slice::<serde_json::Value>` and moves the value
/// into the library's form. The contract names the result (`json_parse`)
/// and states what `serde_json`'s source shows of every parsed value:
/// negative integers are `NegInt`, doubles are finite, and an object's
/// members (a `BTreeMap`'s entries) hold each name once.
#[verifier::external_body]
pub(crate) fn parse_json(bytes: &[u8]) -> (r: Option<Json>)
    ensures
        r == json_parse(bytes@),
        r matches Some(value) ==> json_well_formed(value),
{
    match serde_json::from_slice::<Value>(bytes) {
        Ok(value) => Some(json_from_value(value)),
        Err(_) => None,
    }
}


/// `member_value` finds the first member with the name, and finds one
/// exactly when some member has it.
pub proof fn lemma_member_value_first(ms: Seq<(String, Json)>, n: Seq<char>) -> (i: int)
    ensures
        member_value(ms, n) is None <==> !has_name(ms, n),
        has_name(ms, n) ==> first_with_name(ms, i) && ms[i].0@ == n && member_value(ms, n) == Some(
            ms[i].1,
        ),
    decreases ms.len(),
{
    if ms.len() == 0 {
        0
    } else if ms[0].0@ == n {
        assert(first_with_name(ms, 0));
        assert(has_name(ms, n));
        0
    } else {
        let rest = ms.drop_first();
        let j = lemma_member_value_first(rest, n);
        if has_name(ms, n) {
            let k = choose|k: int| 0 <= k < ms.len() && (#[trigger] ms[k]).0@ == n;
            assert(k > 0);
            assert(rest[k - 1] == ms[k]);
            assert(has_name(rest, n));
            assert forall|k2: int| 0 <= k2 < j + 1 implies (#[trigger] ms[k2]).0@ != ms[j + 1].0@ by {
                if k2 > 0 {
                    assert(rest[k2 - 1] == ms[k2]);
                }
            }
            assert(rest[j] == ms[j + 1]);
        }
        if has_name(rest, n) {
            let k = choose|k: int| 0 <= k < rest.len() && (#[trigger] rest[k]).0@ == n;
            assert(rest[k] == ms[k + 1]);
            assert(has_name(ms, n));
        }
        j + 1
    }
}

/// Equal objects agree on every name: a name is present in one exactly
/// when it is present in the other, and its values there are equal. So a
/// payload with another value under some name is never the same payload.
pub proof fn lemma_equal_objects_agree_on_every_name(a: Json, b: Json, name: Seq<char>)
    requires
        json_same(a, b),
        a is Object,
    ensures
        field(a, name) is Some <==> field(b, name) is Some,
        field(a, name) is Some ==> json_same(field(a, name)->Some_0, field(b, name)->Some_0),
{
    lemma_equal_values_have_one_kind(a, b);
    lemma_objects_same(a, b);
    let xs = a->Object_0@;
    let ys = b->Object_0@;
    let i = lemma_member_value_first(xs, name);
    let j = lemma_member_value_first(ys, name);
    if has_name(xs, name) {
        assert(first_with_name(xs, i));
        let j1 = choose|j1: int| #[trigger]
            first_with_name(ys, j1) && ys[j1].0@ == xs[i].0@ && json_same(xs[i].1, ys[j1].1);
        assert(has_name(ys, name));
        lemma_first_occurrence_unique(ys, j, j1);
    }
    if has_name(ys, name) {
        let k = choose|k: int| 0 <= k < ys.len() && (#[trigger] ys[k]).0@ == name;
        assert(has_name(xs, ys[k].0@));
    }
}


/// An object's member `name` is the value of a member with that name (the
/// first), and an object has none exactly when no member is so named; a
/// value that is not an object has no members.
pub proof fn lemma_field_is_a_member_value(value: Json, name: Seq<char>)
    ensures
        field(value, name) matches Some(v) ==> (value matches Json::Object(ms) && exists|i: int|
            0 <= i < ms@.len() && (#[trigger] ms@[i]).0@ == name && ms@[i].1 == v && forall|k: int|
                0 <= k < i ==> (#[trigger] ms@[k]).0@ != name),
        field(value, name) is None ==> (value matches Json::Object(ms) ==> forall|i: int|
            0 <= i < ms@.len() ==> (#[trigger] ms@[i]).0@ != name),
{
    match value {
        Json::Object(ms) => {
            let i = lemma_member_value_first(ms@, name);
            if has_name(ms@, name) {
                assert(first_with_name(ms@, i));
            }
        },
        _ => {},
    }
}

} // verus!
