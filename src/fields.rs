use vstd::prelude::*;

use crate::order::{chars_lt, compare_keys, lemma_chars_lt_irreflexive, lemma_chars_lt_transitive};

verus! {

/// A field as the contracts see it: its key and its textual value.
pub type FieldView = (Seq<char>, Seq<char>);

/// Keys in strictly increasing lexicographic order, hence unique.
pub open spec fn keys_sorted(s: Seq<FieldView>) -> bool {
    forall|i: int, j: int| 0 <= i < j < s.len() ==> chars_lt(#[trigger] s[i].0, #[trigger] s[j].0)
}

/// No key stands twice.
pub open spec fn keys_unique(s: Seq<FieldView>) -> bool {
    forall|i: int, j: int| 0 <= i < s.len() && 0 <= j < s.len() && i != j ==> #[trigger] s[i].0 != #[trigger] s[j].0
}

/// The key/value mapping that a sequence of fields records; a later entry
/// wins over an earlier one with the same key.
pub open spec fn field_map(s: Seq<FieldView>) -> Map<Seq<char>, Seq<char>>
    decreases s.len(),
{
    if s.len() == 0 {
        Map::empty()
    } else {
        field_map(s.drop_last()).insert(s.last().0, s.last().1)
    }
}

/// A key is recorded exactly when some entry carries it.
pub proof fn lemma_field_map_dom(s: Seq<FieldView>)
    ensures
        forall|k: Seq<char>| #[trigger] field_map(s).dom().contains(k) <==> exists|i: int| 0 <= i < s.len() && s[i].0 == k,
    decreases s.len(),
{
    if s.len() > 0 {
        let t = s.drop_last();
        lemma_field_map_dom(t);
        assert forall|k: Seq<char>| #[trigger] field_map(s).dom().contains(k) <==> exists|i: int| 0 <= i < s.len() && s[i].0 == k by {
            assert(field_map(s).dom() == field_map(t).dom().insert(s.last().0));
            if field_map(s).dom().contains(k) && k != s.last().0 {
                assert(field_map(t).dom().contains(k));
                let i = choose|i: int| 0 <= i < t.len() && t[i].0 == k;
                assert(s[i].0 == k);
            }
            if exists|i: int| 0 <= i < s.len() && s[i].0 == k {
                let i = choose|i: int| 0 <= i < s.len() && s[i].0 == k;
                if i < t.len() {
                    assert(t[i].0 == k);
                    assert(field_map(t).dom().contains(k));
                }
            }
        }
    }
}

/// With unique keys, each entry's value is what its key maps to.
pub proof fn lemma_field_map_value(s: Seq<FieldView>)
    requires
        keys_unique(s),
    ensures
        forall|i: int| 0 <= i < s.len() ==> field_map(s)[#[trigger] s[i].0] == s[i].1,
    decreases s.len(),
{
    if s.len() > 0 {
        let t = s.drop_last();
        assert(keys_unique(t)) by {
            assert forall|i: int, j: int| 0 <= i < t.len() && 0 <= j < t.len() && i != j implies #[trigger] t[i].0 != #[trigger] t[j].0 by {
                assert(t[i] == s[i] && t[j] == s[j]);
            }
        }
        lemma_field_map_value(t);
        assert forall|i: int| 0 <= i < s.len() implies field_map(s)[#[trigger] s[i].0] == s[i].1 by {
            if i < t.len() {
                assert(t[i] == s[i]);
                assert(s[i].0 != s[s.len() - 1].0);
            }
        }
    }
}

/// Sorted keys are unique.
pub proof fn lemma_sorted_unique(s: Seq<FieldView>)
    requires
        keys_sorted(s),
    ensures
        keys_unique(s),
{
    assert forall|i: int, j: int| 0 <= i < s.len() && 0 <= j < s.len() && i != j implies #[trigger] s[i].0 != #[trigger] s[j].0 by {
        lemma_chars_lt_irreflexive(s[i].0);
        if i < j {
            assert(chars_lt(s[i].0, s[j].0));
        } else {
            assert(chars_lt(s[j].0, s[i].0));
        }
    }
}

/// Replacing the value of an entry whose key is `e.0` records `e.1` under it.
proof fn lemma_update_entry(s: Seq<FieldView>, p: int, e: FieldView)
    requires
        keys_sorted(s),
        0 <= p < s.len(),
        s[p].0 == e.0,
    ensures
        keys_sorted(s.update(p, e)),
        field_map(s.update(p, e)) == field_map(s).insert(e.0, e.1),
{
    let t = s.update(p, e);
    assert forall|i: int, j: int| 0 <= i < j < t.len() implies chars_lt(#[trigger] t[i].0, #[trigger] t[j].0) by {
        assert(s[i].0 == t[i].0 && s[j].0 == t[j].0);
    }
    lemma_sorted_unique(s);
    lemma_sorted_unique(t);
    lemma_field_map_dom(s);
    lemma_field_map_dom(t);
    lemma_field_map_value(s);
    lemma_field_map_value(t);
    let m = field_map(s).insert(e.0, e.1);
    assert forall|x: Seq<char>| #[trigger] field_map(t).dom().contains(x) <==> m.dom().contains(x) by {
        if field_map(t).dom().contains(x) {
            let i = choose|i: int| 0 <= i < t.len() && t[i].0 == x;
            assert(s[i].0 == x);
        }
        if field_map(s).dom().contains(x) {
            let i = choose|i: int| 0 <= i < s.len() && s[i].0 == x;
            assert(t[i].0 == x);
        }
        if x == e.0 {
            assert(t[p].0 == x);
        }
    }
    assert forall|x: Seq<char>| #[trigger] field_map(t).dom().contains(x) implies field_map(t)[x] == m[x] by {
        let i = choose|i: int| 0 <= i < t.len() && t[i].0 == x;
        if i != p {
            assert(s[i] == t[i]);
            assert(s[i].0 != s[p].0);
        }
    }
    assert(field_map(t) =~= m);
}

/// Inserting an entry at a position that keeps the keys sorted records it.
proof fn lemma_insert_entry(s: Seq<FieldView>, p: int, e: FieldView)
    requires
        keys_sorted(s),
        0 <= p <= s.len(),
        forall|j: int| 0 <= j < p ==> chars_lt(#[trigger] s[j].0, e.0),
        p < s.len() ==> chars_lt(e.0, s[p].0),
    ensures
        keys_sorted(s.insert(p, e)),
        field_map(s.insert(p, e)) == field_map(s).insert(e.0, e.1),
{
    let t = s.insert(p, e);
    assert forall|i: int, j: int| 0 <= i < j < t.len() implies chars_lt(#[trigger] t[i].0, #[trigger] t[j].0) by {
        if j == p {
            assert(chars_lt(s[i].0, e.0));
        } else if i == p {
            if j - 1 > p {
                assert(chars_lt(s[p].0, s[j - 1].0));
                lemma_chars_lt_transitive(e.0, s[p].0, s[j - 1].0);
            }
        } else if i < p && j > p {
            assert(chars_lt(s[i].0, s[j - 1].0));
        } else if i > p {
            assert(chars_lt(s[i - 1].0, s[j - 1].0));
        } else {
            assert(chars_lt(s[i].0, s[j].0));
        }
    }
    lemma_sorted_unique(s);
    lemma_sorted_unique(t);
    lemma_field_map_dom(s);
    lemma_field_map_dom(t);
    lemma_field_map_value(s);
    lemma_field_map_value(t);
    let m = field_map(s).insert(e.0, e.1);
    assert forall|x: Seq<char>| #[trigger] field_map(t).dom().contains(x) <==> m.dom().contains(x) by {
        if field_map(t).dom().contains(x) {
            let i = choose|i: int| 0 <= i < t.len() && t[i].0 == x;
            if i < p {
                assert(s[i].0 == x);
            } else if i > p {
                assert(s[i - 1].0 == x);
            }
        }
        if field_map(s).dom().contains(x) {
            let i = choose|i: int| 0 <= i < s.len() && s[i].0 == x;
            if i < p {
                assert(t[i].0 == x);
            } else {
                assert(t[i + 1].0 == x);
            }
        }
        if x == e.0 {
            assert(t[p].0 == x);
        }
    }
    assert forall|x: Seq<char>| #[trigger] field_map(t).dom().contains(x) implies field_map(t)[x] == m[x] by {
        let i = choose|i: int| 0 <= i < t.len() && t[i].0 == x;
        if i < p {
            assert(s[i] == t[i]);
            assert(t[i].0 != t[p].0);
        } else if i > p {
            assert(s[i - 1] == t[i]);
            assert(t[i].0 != t[p].0);
        }
    }
    assert(field_map(t) =~= m);
}

/// The fields of `s` whose key is not `k`, in their order.
pub open spec fn without_key(s: Seq<FieldView>, k: Seq<char>) -> Seq<FieldView> {
    s.filter(|e: FieldView| e.0 != k)
}

/// One more entry of `s` adds itself to what `without_key` keeps, unless it
/// carries the key.
proof fn lemma_without_key_step(s: Seq<FieldView>, k: Seq<char>, i: int)
    requires
        0 <= i < s.len(),
    ensures
        without_key(s.take(i + 1), k) == if s[i].0 != k {
            without_key(s.take(i), k).push(s[i])
        } else {
            without_key(s.take(i), k)
        },
{
    reveal(Seq::filter);
    let t = s.take(i + 1);
    assert(t.drop_last() =~= s.take(i));
    assert(t.last() == s[i]);
    assert(t.len() > 0);
}

/// The compact JSON object text of a record whose values are all strings,
/// its keys in their order.
pub uninterp spec fn json_object_text(fields: Seq<(Seq<char>, Seq<char>)>) -> Seq<char>;

/// A character that a JSON string holds as it is: not a quote, not a
/// backslash, not a control character below U+0020.
pub open spec fn json_verbatim_char(c: char) -> bool {
    c != '"' && c != '\\' && (c as u32) >= 32
}

/// A text that JSON writes between quotes without any escape.
pub open spec fn json_verbatim(s: Seq<char>) -> bool {
    forall|i: int| 0 <= i < s.len() ==> json_verbatim_char(#[trigger] s[i])
}

/// Every key and value of the fields needs no escape.
pub open spec fn json_verbatim_fields(s: Seq<FieldView>) -> bool {
    forall|i: int| 0 <= i < s.len() ==> json_verbatim((#[trigger] s[i]).0) && json_verbatim(s[i].1)
}

/// `"key":"value"` for one field.
pub open spec fn json_member(e: FieldView) -> Seq<char> {
    "\""@ + e.0 + "\":\""@ + e.1 + "\""@
}

/// The members of the fields in their order, joined by commas.
pub open spec fn json_members(s: Seq<FieldView>) -> Seq<char>
    decreases s.len(),
{
    if s.len() == 0 {
        Seq::empty()
    } else if s.len() == 1 {
        json_member(s[0])
    } else {
        json_members(s.drop_last()) + ","@ + json_member(s.last())
    }
}

/// The fields captured for one scope or one event: a key-sorted record from
/// field name to textual value.
pub struct SystemdFieldStorage {
    entries: Vec<(String, String)>,
}

/// The fields that a vector of key/value strings holds.
pub open spec fn entries_view(v: Seq<(String, String)>) -> Seq<FieldView> {
    v.map_values(|e: (String, String)| (e.0@, e.1@))
}

/// Appends copies of `src[from..to]` to `out`.
fn copy_entries(src: &Vec<(String, String)>, from: usize, to: usize, out: &mut Vec<(String, String)>)
    requires
        from <= to <= src@.len(),
    ensures
        entries_view(final(out)@) == entries_view(old(out)@) + entries_view(src@).subrange(from as int, to as int),
{
    let ghost start = entries_view(out@);
    let mut j: usize = from;
    while j < to
        invariant
            from <= j <= to,
            to <= src@.len(),
            entries_view(out@) == start + entries_view(src@).subrange(from as int, j as int),
        decreases to - j,
    {
        let ghost before = entries_view(out@);
        let k = src[j].0.clone();
        let v = src[j].1.clone();
        out.push((k, v));
        assert(entries_view(out@) =~= before.push(entries_view(src@)[j as int]));
        assert(entries_view(out@) =~= start + entries_view(src@).subrange(from as int, j + 1));
        j = j + 1;
    }
}

impl View for SystemdFieldStorage {
    type V = Seq<FieldView>;

    closed spec fn view(&self) -> Seq<FieldView> {
        entries_view(self.entries@)
    }
}

impl SystemdFieldStorage {
    /// The record's invariant: keys strictly increasing. It is public, so any
    /// verified caller holding a record obtains it with `use_type_invariant`.
    #[verifier::type_invariant]
    pub open spec fn inv(&self) -> bool {
        keys_sorted(self@)
    }

    /// An empty record.
    pub fn new() -> (r: SystemdFieldStorage)
        ensures
            r@ == Seq::<FieldView>::empty(),
    {
        let r = SystemdFieldStorage { entries: Vec::new() };
        assert(r@ =~= Seq::<FieldView>::empty());
        r
    }

    /// Records `value` under `key`; a field of that key that was there
    /// before gets the new value.
    pub fn insert(&mut self, key: String, value: String)
        ensures
            keys_sorted(final(self)@),
            field_map(final(self)@) == field_map(old(self)@).insert(key@, value@),
            final(self)@.len() == old(self)@.len() + if field_map(old(self)@).dom().contains(key@) {
                0int
            } else {
                1int
            },
    {
        proof {
            use_type_invariant(&*self);
        }
        let n = self.entries.len();
        let mut i: usize = 0;
        let mut cmp: i8 = -1;
        while i < n && cmp < 0
            invariant
                n == self@.len(),
                i <= n,
                keys_sorted(self@),
                forall|j: int| 0 <= j < i ==> chars_lt(#[trigger] self@[j].0, key@),
                cmp >= 0 ==> i < n && (cmp == 0) == (self@[i as int].0 == key@) && (cmp > 0)
                    == chars_lt(key@, self@[i as int].0),
            decreases n - i + (if cmp < 0 { 1int } else { 0int }),
        {
            cmp = compare_keys(self.entries[i].0.as_str(), key.as_str());
            proof {
                lemma_chars_lt_irreflexive(key@);
            }
            if cmp < 0 {
                i = i + 1;
            }
        }
        let ghost s = self@;
        let ghost e: FieldView = (key@, value@);
        let mut out: Vec<(String, String)> = Vec::new();
        copy_entries(&self.entries, 0, i, &mut out);
        out.push((key, value));
        let rest = if cmp == 0 {
            i + 1
        } else {
            i
        };
        let ghost front = out@;
        copy_entries(&self.entries, rest, n, &mut out);
        proof {
            lemma_field_map_dom(s);
            if cmp != 0 {
                assert forall|j: int| 0 <= j < s.len() implies #[trigger] s[j].0 != key@ by {
                    lemma_chars_lt_irreflexive(key@);
                    if j < i {
                        assert(chars_lt(s[j].0, key@));
                    } else {
                        assert(chars_lt(key@, s[i as int].0));
                        if j > i {
                            assert(chars_lt(s[i as int].0, s[j].0));
                            lemma_chars_lt_transitive(key@, s[i as int].0, s[j].0);
                        }
                    }
                }
            }
            assert(entries_view(front) =~= s.take(i as int).push(e));
            if cmp == 0 {
                assert(s[i as int].0 == key@);
                assert(entries_view(out@) =~= s.update(i as int, e));
                lemma_update_entry(s, i as int, e);
            } else {
                assert(entries_view(out@) =~= s.insert(i as int, e));
                lemma_insert_entry(s, i as int, e);
            }
        }
        *self = SystemdFieldStorage { entries: out };
    }

    /// The value recorded under `key`, if any.
    pub fn get(&self, key: &str) -> (r: Option<&String>)
        ensures
            r.is_some() == field_map(self@).dom().contains(key@),
            r.is_some() ==> r.unwrap()@ == field_map(self@)[key@],
    {
        proof {
            use_type_invariant(self);
        }
        let n = self.entries.len();
        let mut i: usize = 0;
        while i < n
            invariant
                n == self@.len(),
                i <= n,
                keys_sorted(self@),
                forall|j: int| 0 <= j < i ==> #[trigger] self@[j].0 != key@,
            decreases n - i,
        {
            if compare_keys(self.entries[i].0.as_str(), key) == 0 {
                assert(self@[i as int].0 == key@);
                proof {
                    lemma_sorted_unique(self@);
                    lemma_field_map_dom(self@);
                    lemma_field_map_value(self@);
                }
                return Some(&self.entries[i].1);
            }
            i = i + 1;
        }
        proof {
            lemma_field_map_dom(self@);
        }
        None
    }

    /// A copy of the record without the field of key `key`.
    pub fn without(&self, key: &str) -> (r: SystemdFieldStorage)
        ensures
            r@ == without_key(self@, key@),
            keys_sorted(r@),
    {
        proof {
            use_type_invariant(self);
        }
        let n = self.entries.len();
        let mut out: Vec<(String, String)> = Vec::new();
        let mut i: usize = 0;
        while i < n
            invariant
                n == self@.len(),
                i <= n,
                keys_sorted(self@),
                entries_view(out@) == without_key(self@.take(i as int), key@),
                keys_sorted(entries_view(out@)),
                forall|a: int, j: int|
                    0 <= a < entries_view(out@).len() && i <= j < n ==> chars_lt(
                        #[trigger] entries_view(out@)[a].0,
                        #[trigger] self@[j].0,
                    ),
            decreases n - i,
        {
            let ghost before = entries_view(out@);
            proof {
                lemma_without_key_step(self@, key@, i as int);
            }
            if compare_keys(self.entries[i].0.as_str(), key) != 0 {
                let k = self.entries[i].0.clone();
                let v = self.entries[i].1.clone();
                out.push((k, v));
                assert(entries_view(out@) =~= before.push(self@[i as int]));
            }
            i = i + 1;
        }
        assert(self@.take(n as int) =~= self@);
        SystemdFieldStorage { entries: out }
    }

    /// Relies on `serde_json::to_string` on a `serde_json::Map` of string
    /// values: compact JSON text that depends on the entries alone. The map
    /// keeps keys in sorted order, which is the record's own order. The
    /// compact formatter writes `{`, the members `"key":"value"` joined by
    /// `,`, then `}`; strings are escaped only at quotes, backslashes and
    /// control characters below U+0020.
    #[verifier::external_body]
    pub(crate) fn to_json(&self) -> (r: String)
        ensures
            r@ == json_object_text(self@),
            json_verbatim_fields(self@) ==> r@ == "{"@ + json_members(self@) + "}"@,
    {
        let map: serde_json::Map<String, serde_json::Value> = self.entries.iter().map(
            |(k, v)| (k.clone(), serde_json::Value::String(v.clone())),
        ).collect();
        serde_json::to_string(&map).unwrap()
    }

    /// A copy of the record.
    pub fn duplicate(&self) -> (r: SystemdFieldStorage)
        ensures
            r@ == self@,
    {
        proof {
            use_type_invariant(self);
        }
        let mut out: Vec<(String, String)> = Vec::new();
        copy_entries(&self.entries, 0, self.entries.len(), &mut out);
        assert(entries_view(out@) =~= self@);
        SystemdFieldStorage { entries: out }
    }

    /// The number of fields.
    pub fn len(&self) -> (r: usize)
        ensures
            r == self@.len(),
    {
        self.entries.len()
    }

    /// The key of the field at position `i`.
    pub fn key_at(&self, i: usize) -> (r: &String)
        requires
            i < self@.len(),
        ensures
            r@ == self@[i as int].0,
    {
        &self.entries[i].0
    }

    /// The value of the field at position `i`.
    pub fn value_at(&self, i: usize) -> (r: &String)
        requires
            i < self@.len(),
        ensures
            r@ == self@[i as int].1,
    {
        &self.entries[i].1
    }
}

} // verus!
