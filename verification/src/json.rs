//! JSON: values that are only carried along, and a tree of plain values where fields are read.
use vstd::prelude::*;

verus! {

/// `serde_json::Value`: a JSON value that is stored or sent on without being looked at.
#[verifier::external_type_specification]
#[verifier::external_body]
pub struct ExValue(serde_json::Value);

/// `serde_json::Error`: why bytes are no JSON.
#[verifier::external_type_specification]
#[verifier::external_body]
pub struct ExError(serde_json::Error);

/// The JSON value that bytes hold, as `serde_json` reads it.
pub uninterp spec fn json_value(data: Seq<u8>) -> Option<serde_json::Value>;

/// The compact bytes of a JSON value, as `serde_json` writes it.
pub uninterp spec fn json_bytes(value: serde_json::Value) -> Seq<u8>;

/// Calls `serde_json::from_slice`. The contract names the value that the bytes hold, and says that
/// the call fails where they hold none.
#[verifier::external_body]
pub(crate) fn json_from_slice(data: &[u8]) -> (parsed: Result<serde_json::Value, serde_json::Error>)
    ensures
        match parsed {
            Ok(value) => json_value(data@) == Some(value),
            Err(_) => json_value(data@) is None,
        },
{
    serde_json::from_slice(data)
}

/// Calls `serde_json::to_vec`. The contract names the bytes that the value is written as. The call
/// can fail for a type of which the writing fails, or for a map whose keys are no strings; a
/// `serde_json::Value` is neither, so it always succeeds.
#[verifier::external_body]
pub(crate) fn json_to_vec(value: &serde_json::Value) -> (written: Result<
    Vec<u8>,
    serde_json::Error,
>)
    ensures
        written is Ok,
        written->Ok_0@ == json_bytes(*value),
{
    serde_json::to_vec(value)
}

/// A JSON value whose fields are read.
#[derive(Debug)]
pub enum Json {
    Null,
    Bool(bool),
    Integer(i128),
    /// A number that is no integer, in decimal.
    Float(String),
    Str(String),
    Array(Vec<Json>),
    Object(Vec<(String, Json)>),
}

/// The value of the first member called `key`.
pub open spec fn find_member(members: Seq<(String, Json)>, key: Seq<char>) -> Option<Json>
    decreases members.len(),
{
    if members.len() == 0 {
        None
    } else if members[0].0@ == key {
        Some(members[0].1)
    } else {
        find_member(members.drop_first(), key)
    }
}

/// A name is found exactly where some member has it, and what is found is the value of the first
/// member that has it.
pub proof fn law_member_is_the_first_of_its_name(members: Seq<(String, Json)>, key: Seq<char>)
    ensures
        find_member(members, key) is Some <==> exists|i: int|
            0 <= i < members.len() && (#[trigger] members[i]).0@ == key,
        find_member(members, key) matches Some(v) ==> exists|i: int|
            {
                &&& 0 <= i < members.len()
                &&& (#[trigger] members[i]).0@ == key
                &&& members[i].1 == v
                &&& forall|j: int| 0 <= j < i ==> (#[trigger] members[j]).0@ != key
            },
    decreases members.len(),
{
    if members.len() > 0 && members[0].0@ != key {
        let rest = members.drop_first();
        law_member_is_the_first_of_its_name(rest, key);
        assert(forall|i: int| 0 <= i < rest.len() ==> #[trigger] rest[i] == members[i + 1]);
        assert(forall|i: int| 0 < i < members.len() ==> #[trigger] members[i] == rest[i - 1]);
        if let Some(v) = find_member(rest, key) {
            let i = choose|i: int|
                {
                    &&& 0 <= i < rest.len()
                    &&& (#[trigger] rest[i]).0@ == key
                    &&& rest[i].1 == v
                    &&& forall|j: int| 0 <= j < i ==> (#[trigger] rest[j]).0@ != key
                };
            assert(members[i + 1].0@ == key);
        }
    }
}

impl Json {
    /// The text of a string; nothing for any other value.
    pub open spec fn str_text(self) -> Option<Seq<char>> {
        match self {
            Json::Str(s) => Some(s@),
            _ => None,
        }
    }

    /// The member of an object called `key`; nothing where there is none, or for any other value.
    pub open spec fn member_value(self, key: Seq<char>) -> Option<Json> {
        match self {
            Json::Object(members) => find_member(members@, key),
            _ => None,
        }
    }

    /// The text of the member `key`, where it is there and is a string.
    pub open spec fn member_text(self, key: Seq<char>) -> Option<Seq<char>> {
        match self.member_value(key) {
            Some(value) => value.str_text(),
            None => None,
        }
    }

    /// The integer that the value is, where an `i64` can hold it.
    pub open spec fn integer(self) -> Option<i64> {
        match self {
            Json::Integer(n) => if i64::MIN <= n <= i64::MAX {
                Some(n as i64)
            } else {
                None
            },
            _ => None,
        }
    }

    /// The text of a string.
    pub fn as_str(&self) -> (text: Option<&str>)
        ensures
            match text {
                Some(t) => self.str_text() == Some(t@),
                None => self.str_text() is None,
            },
            match *self {
                Json::Str(s) => text matches Some(t) && t@ == s@,
                _ => text is None,
            },
    {
        match self {
            Json::Str(s) => Some(s.as_str()),
            _ => None,
        }
    }

    /// The member of an object called `key`.
    pub fn member(&self, key: &str) -> (value: Option<&Json>)
        ensures
            match value {
                Some(v) => self.member_value(key@) == Some(*v),
                None => self.member_value(key@) is None,
            },
            *self !is Object ==> value is None,
            *self matches Json::Object(members) ==> (value is Some <==> exists|i: int|
                0 <= i < members@.len() && (#[trigger] members@[i]).0@ == key@),
            *self matches Json::Object(members) ==> (value matches Some(v) ==> exists|i: int|
                {
                    &&& 0 <= i < members@.len()
                    &&& (#[trigger] members@[i]).0@ == key@
                    &&& members@[i].1 == *v
                    &&& forall|j: int| 0 <= j < i ==> (#[trigger] members@[j]).0@ != key@
                }),
    {
        proof {
            if let Json::Object(members) = self {
                law_member_is_the_first_of_its_name(members@, key@);
            }
        }
        match self {
            Json::Object(members) => {
                assert(members@.skip(0) == members@);
                let mut i: usize = 0;
                while i < members.len()
                    invariant
                        *self == Json::Object(*members),
                        i <= members.len(),
                        find_member(members@, key@) == find_member(members@.skip(i as int), key@),
                        forall|j: int| 0 <= j < i ==> (#[trigger] members@[j]).0@ != key@,
                    decreases members.len() - i,
                {
                    assert(members@.skip(i as int).drop_first() == members@.skip(i + 1));
                    if *members[i].0.as_str() == *key {
                        return Some(&members[i].1);
                    }
                    i = i + 1;
                }
                None
            },
            _ => None,
        }
    }

    /// The integer that the value is, where an `i64` can hold it.
    pub fn as_i64(&self) -> (n: Option<i64>)
        ensures
            n == self.integer(),
            match *self {
                Json::Integer(i) => if -0x8000_0000_0000_0000 <= i <= 0x7fff_ffff_ffff_ffff {
                    n is Some && n->0 == i
                } else {
                    n is None
                },
                _ => n is None,
            },
    {
        match self {
            Json::Integer(n) => if i64::MIN as i128 <= *n && *n <= i64::MAX as i128 {
                Some(*n as i64)
            } else {
                None
            },
            _ => None,
        }
    }
}

/// The text of a member is there exactly where the value is an object that has a member of that
/// name, the first of which is a string; and it is that string's.
pub proof fn law_member_text_is_that_of_a_string(value: Json, key: Seq<char>)
    ensures
        value !is Object ==> value.member_text(key) is None,
        value matches Json::Object(members) ==> (value.member_text(key) is Some <==> exists|i: int|
            {
                &&& 0 <= i < members@.len()
                &&& (#[trigger] members@[i]).0@ == key
                &&& members@[i].1 is Str
                &&& forall|j: int| 0 <= j < i ==> (#[trigger] members@[j]).0@ != key
            }),
        value matches Json::Object(members) ==> (forall|i: int|
            {
                &&& 0 <= i < members@.len()
                &&& (#[trigger] members@[i]).0@ == key
                &&& members@[i].1 is Str
                &&& forall|j: int| 0 <= j < i ==> (#[trigger] members@[j]).0@ != key
            } ==> value.member_text(key) == Some(members@[i].1->Str_0@)),
{
    if let Json::Object(members) = value {
        law_member_is_the_first_of_its_name(members@, key);
    }
}

} // verus!
