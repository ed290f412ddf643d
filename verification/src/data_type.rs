//! The five value types and their one-byte tags.
use vstd::prelude::*;

verus! {

/// The type of a top-level value; each type lives in a database of its own.
#[derive(Debug, Clone, Copy, PartialEq, Eq, Structural)]
pub enum DataType {
    String,
    Hash,
    SetType,
    List,
    ZSet,
}

/// The tag byte that starts every encoded top-level value of type `t`.
pub open spec fn tag_of(t: DataType) -> u8 {
    match t {
        DataType::String => 115u8,  // 's'
        DataType::Hash => 104u8,  // 'h'
        DataType::SetType => 83u8,  // 'S'
        DataType::List => 108u8,  // 'l'
        DataType::ZSet => 122u8,  // 'z'
    }
}

/// The type whose tag is `v`, if any.
pub open spec fn type_of_tag(v: u8) -> Option<DataType> {
    if v == 115 {
        Some(DataType::String)
    } else if v == 104 {
        Some(DataType::Hash)
    } else if v == 83 {
        Some(DataType::SetType)
    } else if v == 108 {
        Some(DataType::List)
    } else if v == 122 {
        Some(DataType::ZSet)
    } else {
        None
    }
}

/// ASCII lower-casing of one byte.
pub open spec fn ascii_lower(b: u8) -> u8 {
    if 65 <= b <= 90 {
        (b + 32) as u8
    } else {
        b
    }
}

/// Equality of two byte strings up to ASCII case.
pub open spec fn eq_ignore_ascii_case_spec(a: Seq<u8>, b: Seq<u8>) -> bool {
    &&& a.len() == b.len()
    &&& forall|i: int| 0 <= i < a.len() ==> #[trigger] ascii_lower(a[i]) == ascii_lower(b[i])
}

pub open spec fn name_string() -> Seq<u8> {
    seq![115u8, 116u8, 114u8, 105u8, 110u8, 103u8]
}

pub open spec fn name_hash() -> Seq<u8> {
    seq![104u8, 97u8, 115u8, 104u8]
}

pub open spec fn name_list() -> Seq<u8> {
    seq![108u8, 105u8, 115u8, 116u8]
}

pub open spec fn name_set() -> Seq<u8> {
    seq![115u8, 101u8, 116u8]
}

pub open spec fn name_zset() -> Seq<u8> {
    seq![122u8, 115u8, 101u8, 116u8]
}

/// The type that a protocol-level selector names, compared without regard to ASCII case.
pub open spec fn type_of_name(value: Seq<u8>) -> Option<DataType> {
    if eq_ignore_ascii_case_spec(value, name_string()) {
        Some(DataType::String)
    } else if eq_ignore_ascii_case_spec(value, name_hash()) {
        Some(DataType::Hash)
    } else if eq_ignore_ascii_case_spec(value, name_list()) {
        Some(DataType::List)
    } else if eq_ignore_ascii_case_spec(value, name_set()) {
        Some(DataType::SetType)
    } else if eq_ignore_ascii_case_spec(value, name_zset()) {
        Some(DataType::ZSet)
    } else {
        None
    }
}

fn lower(b: u8) -> (r: u8)
    ensures
        r == ascii_lower(b),
{
    if 65 <= b && b <= 90 {
        b + 32
    } else {
        b
    }
}

/// Compares two byte strings without regard to ASCII case.
pub fn eq_ignore_ascii_case(a: &[u8], b: &[u8]) -> (r: bool)
    ensures
        r == eq_ignore_ascii_case_spec(a@, b@),
{
    if a.len() != b.len() {
        return false;
    }
    let mut i: usize = 0;
    while i < a.len()
        invariant
            a@.len() == b@.len(),
            0 <= i <= a@.len(),
            forall|j: int| 0 <= j < i ==> #[trigger] ascii_lower(a@[j]) == ascii_lower(b@[j]),
        decreases a@.len() - i,
    {
        if lower(a[i]) != lower(b[i]) {
            return false;
        }
        i = i + 1;
    }
    true
}

impl DataType {
    /// Parses the protocol-level type selector used by key-scoped commands.
    ///
    /// Type selectors are case-insensitive, like command names.
    pub fn from_name(value: &[u8]) -> (r: Option<DataType>)
        ensures
            r == type_of_name(value@),
    {
        let string_name: [u8; 6] = [115, 116, 114, 105, 110, 103];
        let hash_name: [u8; 4] = [104, 97, 115, 104];
        let list_name: [u8; 4] = [108, 105, 115, 116];
        let set_name: [u8; 3] = [115, 101, 116];
        let zset_name: [u8; 4] = [122, 115, 101, 116];
        assert(string_name@ =~= name_string());
        assert(hash_name@ =~= name_hash());
        assert(list_name@ =~= name_list());
        assert(set_name@ =~= name_set());
        assert(zset_name@ =~= name_zset());
        if eq_ignore_ascii_case(value, &string_name) {
            Some(DataType::String)
        } else if eq_ignore_ascii_case(value, &hash_name) {
            Some(DataType::Hash)
        } else if eq_ignore_ascii_case(value, &list_name) {
            Some(DataType::List)
        } else if eq_ignore_ascii_case(value, &set_name) {
            Some(DataType::SetType)
        } else if eq_ignore_ascii_case(value, &zset_name) {
            Some(DataType::ZSet)
        } else {
            None
        }
    }

    /// The type whose tag byte is `v`.
    pub fn from_u8(v: u8) -> (r: Option<DataType>)
        ensures
            r == type_of_tag(v),
    {
        if v == 115 {
            Some(DataType::String)
        } else if v == 104 {
            Some(DataType::Hash)
        } else if v == 83 {
            Some(DataType::SetType)
        } else if v == 108 {
            Some(DataType::List)
        } else if v == 122 {
            Some(DataType::ZSet)
        } else {
            None
        }
    }

    /// The tag byte of this type.
    pub fn tag(self) -> (r: u8)
        ensures
            r == tag_of(self),
    {
        match self {
            DataType::String => 115,
            DataType::Hash => 104,
            DataType::SetType => 83,
            DataType::List => 108,
            DataType::ZSet => 122,
        }
    }

    /// The name that this type has in diagnostics.
    pub fn name(self) -> (r: &'static str)
        ensures
            r@ == diagnostic_name(self),
    {
        match self {
            DataType::String => "String",
            DataType::Hash => "Hash",
            DataType::SetType => "Set",
            DataType::List => "List",
            DataType::ZSet => "ZSet",
        }
    }
}

/// The name of each type in diagnostics.
pub open spec fn diagnostic_name(t: DataType) -> Seq<char> {
    match t {
        DataType::String => "String"@,
        DataType::Hash => "Hash"@,
        DataType::SetType => "Set"@,
        DataType::List => "List"@,
        DataType::ZSet => "ZSet"@,
    }
}

/// Each type's tag decodes back to that type, and only tags decode to types.
pub proof fn lemma_tag_round_trip(t: DataType, v: u8)
    ensures
        type_of_tag(tag_of(t)) == Some(t),
        type_of_tag(v) matches Some(u) ==> tag_of(u) == v,
{
}

} // verus!
