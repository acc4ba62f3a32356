use vstd::prelude::*;

verus! {

/// A JSON document as plain values. Object members keep their order.
#[derive(Debug)]
pub enum Json {
    Null,
    Bool(bool),
    /// A number that is a non-negative integer fitting in 64 bits.
    UInt(u64),
    /// Any other number, as its literal text.
    Number(String),
    Str(String),
    Array(Vec<Json>),
    Object(Vec<(String, Json)>),
}

/// The value of the first member named `key` at or after position `i`.
pub open spec fn lookup_from(fields: Seq<(String, Json)>, key: Seq<char>, i: int) -> Option<Json>
    decreases fields.len() - i,
{
    if i < 0 || i >= fields.len() {
        None
    } else if fields[i].0@ == key {
        Some(fields[i].1)
    } else {
        lookup_from(fields, key, i + 1)
    }
}

impl Json {
    /// The member `key` of an object (the first one of that name); `None` for other values.
    pub open spec fn get_spec(self, key: Seq<char>) -> Option<Json> {
        match self {
            Json::Object(fields) => lookup_from(fields@, key, 0),
            _ => None,
        }
    }

    /// The first element of a non-empty array; `None` otherwise.
    pub open spec fn first_spec(self) -> Option<Json> {
        match self {
            Json::Array(items) => if items@.len() > 0 { Some(items@[0]) } else { None },
            _ => None,
        }
    }

    /// The text of a string value.
    pub open spec fn str_spec(self) -> Option<Seq<char>> {
        match self {
            Json::Str(s) => Some(s@),
            _ => None,
        }
    }

    pub fn get(&self, key: &str) -> (r: Option<&Json>)
        ensures
            match r {
                Some(v) => self.get_spec(key@) == Some(*v),
                None => self.get_spec(key@) is None,
            },
    {
        match self {
            Json::Object(fields) => {
                let k = key.to_owned();
                let mut i: usize = 0;
                while i < fields.len()
                    invariant
                        i <= fields@.len(),
                        k@ == key@,
                        self.get_spec(key@) == lookup_from(fields@, key@, 0),
                        lookup_from(fields@, key@, 0) == lookup_from(fields@, key@, i as int),
                    decreases fields@.len() - i,
                {
                    let same: bool = fields[i].0.eq(&k);
                    if same {
                        return Some(&fields[i].1);
                    }
                    i = i + 1;
                }
                None
            },
            _ => None,
        }
    }

    /// Consumes the value and hands back its member `key`.
    pub fn take_member(self, key: &str) -> (r: Option<Json>)
        ensures
            r == self.get_spec(key@),
    {
        let ghost whole = self;
        match self {
            Json::Object(mut fields) => {
                let k = key.to_owned();
                let mut i: usize = 0;
                while i < fields.len()
                    invariant
                        i <= fields@.len(),
                        k@ == key@,
                        whole == self,
                        whole.get_spec(key@) == lookup_from(fields@, key@, 0),
                        lookup_from(fields@, key@, 0) == lookup_from(fields@, key@, i as int),
                    decreases fields@.len() - i,
                {
                    let same: bool = fields[i].0.eq(&k);
                    if same {
                        let ghost before = fields@;
                        assert(lookup_from(before, key@, i as int) == Some(before[i as int].1));
                        let (_, v) = fields.swap_remove(i);
                        assert(v == before[i as int].1);
                        return Some(v);
                    }
                    i = i + 1;
                }
                None
            },
            _ => None,
        }
    }

    pub fn first(&self) -> (r: Option<&Json>)
        ensures
            match r {
                Some(v) => self.first_spec() == Some(*v),
                None => self.first_spec() is None,
            },
    {
        match self {
            Json::Array(items) => if items.len() > 0 { Some(&items[0]) } else { None },
            _ => None,
        }
    }

    pub fn as_str(&self) -> (r: Option<&String>)
        ensures
            match r {
                Some(s) => self.str_spec() == Some(s@),
                None => self.str_spec() is None,
            },
    {
        match self {
            Json::Str(s) => Some(s),
            _ => None,
        }
    }
}

} // verus!
