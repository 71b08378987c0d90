//! Directory entries and the typed reads made on them.
//!
//! An entry keeps its attributes as an ordered list of (name, values) pairs;
//! a name is looked up by exact, case-sensitive comparison and the first pair
//! with that name is the one read.
use vstd::prelude::*;
use chrono::NaiveDateTime;
use crate::filetime::{filetime_secs, filetime_to_unix_secs, naive_at, naive_from_unix_secs};
use crate::sid::{obj_sid_to_string, sid_error, sid_text, SidError};
use crate::text::{i64_of, parse_i64};

verus! {

/// String-valued attributes: each name with its values, in order.
pub type AttrList = Seq<(Seq<char>, Seq<Seq<char>>)>;

/// Binary-valued attributes: each name with its values, in order.
pub type BinAttrList = Seq<(Seq<char>, Seq<Seq<u8>>)>;

/// One search result: its distinguished name and its attribute values.
pub struct Entry {
    pub dn: String,
    pub attrs: Vec<(String, Vec<String>)>,
    pub bin_attrs: Vec<(String, Vec<Vec<u8>>)>,
}

/// `i` is the first position that holds `name`.
pub open spec fn is_first_key<V>(v: Seq<(Seq<char>, V)>, name: Seq<char>, i: int) -> bool {
    0 <= i < v.len() && v[i].0 == name && forall|j: int| 0 <= j < i ==> v[j].0 != name
}

/// The first position that holds `name`, or -1.
pub open spec fn key_pos<V>(v: Seq<(Seq<char>, V)>, name: Seq<char>) -> int {
    if exists|i: int| is_first_key(v, name, i) {
        choose|i: int| is_first_key(v, name, i)
    } else {
        -1
    }
}

/// The values held under `name`, if it is present.
pub open spec fn lookup<V>(v: Seq<(Seq<char>, V)>, name: Seq<char>) -> Option<V> {
    let k = key_pos(v, name);
    if k >= 0 {
        Some(v[k].1)
    } else {
        None
    }
}

/// No name occurs twice.
pub open spec fn keys_unique<V>(v: Seq<(Seq<char>, V)>) -> bool {
    forall|i: int, j: int| 0 <= i < j < v.len() ==> v[i].0 != v[j].0
}

/// The integer read from a value list: its first value parsed, `"0"` standing
/// in for an empty list.
pub open spec fn int_of_values(vals: Option<Seq<Seq<char>>>) -> Option<i64> {
    match vals {
        None => None,
        Some(vs) => if vs.len() > 0 {
            i64_of(vs[0])
        } else {
            i64_of("0"@)
        },
    }
}

/// The account is enabled when the disable bit (2) of `userAccountControl` is
/// clear; a missing or unreadable value counts as disabled.
pub open spec fn enabled_of(v: AttrList) -> bool {
    (int_of_values(lookup(v, "userAccountControl"@)).unwrap_or(2) & 2) == 0
}

/// Unix seconds of the last logon; a missing or unreadable value counts as 0.
pub open spec fn last_logon_secs(v: AttrList) -> int {
    filetime_secs(int_of_values(lookup(v, "lastLogonTimestamp"@)).unwrap_or(0))
}

/// The first `objectSid` value, or no bytes at all.
pub open spec fn sid_bytes(b: BinAttrList) -> Seq<u8> {
    match lookup(b, "objectSid"@) {
        Some(vs) => if vs.len() > 0 {
            vs[0]
        } else {
            Seq::empty()
        },
        None => Seq::empty(),
    }
}

/// Taking the first value of `name`: what is returned and what is left. The
/// name goes once its last value is taken; an empty or missing list gives
/// nothing and leaves the list as it was.
pub open spec fn take_first(v: AttrList, name: Seq<char>) -> (Option<Seq<char>>, AttrList) {
    let k = key_pos(v, name);
    if k < 0 || v[k].1.len() == 0 {
        (None, v)
    } else if v[k].1.len() == 1 {
        (Some(v[k].1[0]), v.remove(k))
    } else {
        (Some(v[k].1[0]), v.update(k, (name, v[k].1.drop_first())))
    }
}

/// Taking every value of `name`: the list in order, and what is left.
pub open spec fn take_all(v: AttrList, name: Seq<char>) -> (Option<Seq<Seq<char>>>, AttrList) {
    let k = key_pos(v, name);
    if k < 0 {
        (None, v)
    } else {
        (Some(v[k].1), v.remove(k))
    }
}

/// The values as character sequences.
pub open spec fn strings_view(v: Seq<String>) -> Seq<Seq<char>> {
    v.map_values(|s: String| s@)
}

/// An optional value as a character sequence.
pub open spec fn opt_string_view(o: Option<String>) -> Option<Seq<char>> {
    match o {
        Some(s) => Some(s@),
        None => None,
    }
}

/// An optional value list as character sequences.
pub open spec fn opt_strings_view(o: Option<Vec<String>>) -> Option<Seq<Seq<char>>> {
    match o {
        Some(v) => Some(strings_view(v@)),
        None => None,
    }
}

proof fn lemma_first_key_is_pos<V>(v: Seq<(Seq<char>, V)>, name: Seq<char>, i: int)
    requires
        is_first_key(v, name, i),
    ensures
        key_pos(v, name) == i,
{
    let k = choose|k: int| is_first_key(v, name, k);
    assert(is_first_key(v, name, k));
    if k < i {
        assert(v[k].0 == name);
    } else if k > i {
        assert(v[i].0 == name);
    }
}

proof fn lemma_absent_key<V>(v: Seq<(Seq<char>, V)>, name: Seq<char>)
    requires
        forall|j: int| 0 <= j < v.len() ==> v[j].0 != name,
    ensures
        key_pos(v, name) == -1,
{
    if exists|i: int| is_first_key(v, name, i) {
        let i = choose|i: int| is_first_key(v, name, i);
        assert(v[i].0 == name);
    }
}

/// The position of the first pair whose name is `name`.
fn find_key<V>(v: &Vec<(String, V)>, name: &str) -> (r: Option<usize>)
    ensures
        match r {
            Some(i) => i < v@.len() && v@[i as int].0@ == name@ && forall|j: int|
                0 <= j < i ==> v@[j].0@ != name@,
            None => forall|j: int| 0 <= j < v@.len() ==> v@[j].0@ != name@,
        },
{
    let key = String::from_str(name);
    let mut i: usize = 0;
    while i < v.len()
        invariant
            key@ == name@,
            i <= v@.len(),
            forall|j: int| 0 <= j < i ==> v@[j].0@ != name@,
        decreases v@.len() - i,
    {
        if v[i].0 == key {
            return Some(i);
        }
        i = i + 1;
    }
    None
}

impl Entry {
    /// The string-valued attributes, in order.
    pub open spec fn attrs_view(&self) -> AttrList {
        self.attrs@.map_values(|p: (String, Vec<String>)| (p.0@, strings_view(p.1@)))
    }

    /// The binary-valued attributes, in order.
    pub open spec fn bin_attrs_view(&self) -> BinAttrList {
        self.bin_attrs@.map_values(
            |p: (String, Vec<Vec<u8>>)| (p.0@, p.1@.map_values(|b: Vec<u8>| b@)),
        )
    }

    /// An entry with a name and no attributes.
    pub fn new(dn: String) -> (r: Entry)
        ensures
            r.dn == dn,
            r.attrs_view() == Seq::<(Seq<char>, Seq<Seq<char>>)>::empty(),
            r.bin_attrs_view() == Seq::<(Seq<char>, Seq<Seq<u8>>)>::empty(),
    {
        let r = Entry { dn, attrs: Vec::new(), bin_attrs: Vec::new() };
        proof {
            assert(r.attrs_view() =~= Seq::<(Seq<char>, Seq<Seq<char>>)>::empty());
            assert(r.bin_attrs_view() =~= Seq::<(Seq<char>, Seq<Seq<u8>>)>::empty());
        }
        r
    }

    /// The position of `name` in the string-valued attributes.
    fn attr_pos(&self, name: &str) -> (r: Option<usize>)
        ensures
            match r {
                Some(i) => i < self.attrs@.len() && key_pos(self.attrs_view(), name@) == i,
                None => key_pos(self.attrs_view(), name@) == -1,
            },
    {
        let r = find_key(&self.attrs, name);
        proof {
            let v = self.attrs_view();
            match r {
                Some(i) => lemma_first_key_is_pos(v, name@, i as int),
                None => lemma_absent_key(v, name@),
            }
        }
        r
    }
}

/// Typed reads of a directory entry. `str_attr` and `member_of` take the
/// values they return out of the entry; the other reads leave it as it is.
pub trait AttributeHelper {
    spec fn dn_view(&self) -> Seq<char>;

    spec fn attr_view(&self) -> AttrList;

    spec fn bin_view(&self) -> BinAttrList;

    /// The first value of `attr_name` as an integer.
    fn int_attr(&self, attr_name: &str) -> (r: Option<i64>)
        ensures
            r == int_of_values(lookup(self.attr_view(), attr_name@)),
    ;

    /// Whether the account is enabled.
    fn enabled(&self) -> (r: bool)
        ensures
            r == enabled_of(self.attr_view()),
    ;

    /// The last logon time as a naive date-time.
    fn last_logon(&self) -> (r: NaiveDateTime)
        ensures
            r == naive_at(last_logon_secs(self.attr_view())),
    ;

    /// Takes the first value of `name` out of the entry.
    fn str_attr(&mut self, name: &str) -> (r: Option<String>)
        ensures
            opt_string_view(r) == take_first(old(self).attr_view(), name@).0,
            final(self).attr_view() == take_first(old(self).attr_view(), name@).1,
            final(self).bin_view() == old(self).bin_view(),
            final(self).dn_view() == old(self).dn_view(),
    ;

    /// The string form of the entry's `objectSid`.
    fn sid(&self) -> (r: Result<String, SidError>)
        ensures
            match r {
                Ok(s) => sid_error(sid_bytes(self.bin_view())).is_none() && s@ == sid_text(
                    sid_bytes(self.bin_view()),
                ),
                Err(e) => sid_error(sid_bytes(self.bin_view())) == Some(e),
            },
    ;

    /// Takes every `memberOf` value out of the entry, in order.
    fn member_of(&mut self) -> (r: Option<Vec<String>>)
        ensures
            opt_strings_view(r) == take_all(old(self).attr_view(), "memberOf"@).0,
            final(self).attr_view() == take_all(old(self).attr_view(), "memberOf"@).1,
            final(self).bin_view() == old(self).bin_view(),
            final(self).dn_view() == old(self).dn_view(),
    ;
}

impl AttributeHelper for Entry {
    open spec fn dn_view(&self) -> Seq<char> {
        self.dn@
    }

    open spec fn attr_view(&self) -> AttrList {
        self.attrs_view()
    }

    open spec fn bin_view(&self) -> BinAttrList {
        self.bin_attrs_view()
    }

    fn int_attr(&self, attr_name: &str) -> (r: Option<i64>) {
        match self.attr_pos(attr_name) {
            None => None,
            Some(i) => {
                let vals = &self.attrs[i].1;
                if vals.len() > 0 {
                    parse_i64(vals[0].as_str())
                } else {
                    parse_i64("0")
                }
            },
        }
    }

    fn enabled(&self) -> (r: bool) {
        let uac = match self.int_attr("userAccountControl") {
            Some(v) => v,
            None => 2,
        };
        uac & 2 == 0
    }

    fn last_logon(&self) -> (r: NaiveDateTime) {
        let ticks = match self.int_attr("lastLogonTimestamp") {
            Some(v) => v,
            None => 0,
        };
        naive_from_unix_secs(filetime_to_unix_secs(ticks))
    }

    fn str_attr(&mut self, name: &str) -> (r: Option<String>) {
        let ghost v0 = self.attrs_view();
        match self.attr_pos(name) {
            None => None,
            Some(i) => {
                if self.attrs[i].1.len() == 0 {
                    return None;
                }
                let (key, mut vals) = self.attrs.remove(i);
                let first = vals.remove(0);
                let ghost rest = strings_view(vals@);
                proof {
                    assert(v0[i as int].1.drop_first() =~= rest);
                    assert(self.attrs_view() =~= v0.remove(i as int));
                }
                if vals.len() > 0 {
                    self.attrs.insert(i, (key, vals));
                    proof {
                        assert(self.attrs_view() =~= v0.update(i as int, (name@, rest)));
                    }
                }
                Some(first)
            },
        }
    }

    fn sid(&self) -> (r: Result<String, SidError>) {
        let ghost b = self.bin_attrs_view();
        let found = find_key(&self.bin_attrs, "objectSid");
        proof {
            match found {
                Some(i) => lemma_first_key_is_pos(b, "objectSid"@, i as int),
                None => lemma_absent_key(b, "objectSid"@),
            }
        }
        let empty: Vec<u8> = Vec::new();
        let bytes: &Vec<u8> = match found {
            Some(i) => {
                if self.bin_attrs[i].1.len() > 0 {
                    &self.bin_attrs[i].1[0]
                } else {
                    &empty
                }
            },
            None => &empty,
        };
        proof {
            assert(bytes@ =~= sid_bytes(b));
        }
        obj_sid_to_string(bytes.as_slice())
    }

    fn member_of(&mut self) -> (r: Option<Vec<String>>) {
        let ghost v0 = self.attrs_view();
        match self.attr_pos("memberOf") {
            None => None,
            Some(i) => {
                let (_key, vals) = self.attrs.remove(i);
                proof {
                    assert(self.attrs_view() =~= v0.remove(i as int));
                }
                Some(vals)
            },
        }
    }
}

/// An entry without `userAccountControl` reads as disabled.
pub proof fn lemma_disabled_by_default(v: AttrList)
    requires
        lookup(v, "userAccountControl"@).is_none(),
    ensures
        !enabled_of(v),
{
    assert((2i64 & 2i64) == 2i64) by (bit_vector);
}

/// Taking the first value of a name twice: the second take gives the next
/// value when there was one, and nothing otherwise.
pub proof fn lemma_destructive_read(v: AttrList, name: Seq<char>)
    requires
        keys_unique(v),
        take_first(v, name).0.is_some(),
    ensures
        ({
            let vals = lookup(v, name).unwrap();
            take_first(take_first(v, name).1, name).0 == if vals.len() > 1 {
                Some(vals[1])
            } else {
                None::<Seq<char>>
            }
        }),
{
    let k = key_pos(v, name);
    let i = choose|i: int| is_first_key(v, name, i);
    assert(k == i);
    let rest = take_first(v, name).1;
    if v[k].1.len() == 1 {
        assert forall|j: int| 0 <= j < rest.len() implies rest[j].0 != name by {
            if j < k {
                assert(rest[j] == v[j]);
            } else {
                assert(rest[j] == v[j + 1]);
                assert(v[k].0 != v[j + 1].0);
            }
        }
        lemma_absent_key(rest, name);
    } else {
        assert(is_first_key(rest, name, k));
        lemma_first_key_is_pos(rest, name, k);
    }
}

} // verus!
