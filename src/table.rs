use vstd::prelude::*;

use crate::text::{
    lemma_name_lt_irreflexive,
    lemma_name_lt_total,
    lemma_name_lt_transitive,
    name_less,
    name_lt,
};

verus! {

/// Named entries with their names as character sequences.
pub open spec fn entries_view<T: View>(s: Seq<(String, T)>) -> Seq<(Seq<char>, T::V)> {
    s.map_values(|e: (String, T)| (e.0@, e.1@))
}

/// Whether the names of the entries strictly ascend (so they are also unique).
pub open spec fn names_ordered<V>(s: Seq<(Seq<char>, V)>) -> bool {
    forall|i: int, j: int| 0 <= i < j < s.len() ==> name_lt(#[trigger] s[i].0, #[trigger] s[j].0)
}

/// Whether some entry has the given name.
pub open spec fn has_name<V>(s: Seq<(Seq<char>, V)>, name: Seq<char>) -> bool {
    exists|i: int| 0 <= i < s.len() && #[trigger] s[i].0 == name
}

/// The number of entries whose name comes before `name`: where an entry of
/// that name goes in an ordered sequence.
pub open spec fn insertion_point<V>(s: Seq<(Seq<char>, V)>, name: Seq<char>) -> nat
    decreases s.len(),
{
    if s.len() == 0 {
        0
    } else {
        insertion_point(s.drop_last(), name) + if name_lt(s.last().0, name) {
            1nat
        } else {
            0nat
        }
    }
}

/// The entries with one more entry put in its place by name.
pub open spec fn insert_named<V>(s: Seq<(Seq<char>, V)>, name: Seq<char>, v: V) -> Seq<
    (Seq<char>, V),
> {
    s.insert(insertion_point(s, name) as int, (name, v))
}

pub proof fn lemma_insertion_point_bound<V>(s: Seq<(Seq<char>, V)>, name: Seq<char>)
    ensures
        insertion_point(s, name) <= s.len(),
    decreases s.len(),
{
    if s.len() > 0 {
        lemma_insertion_point_bound(s.drop_last(), name);
    }
}

/// After an entry is put in its place, an entry of that name is present.
pub proof fn lemma_insert_named_has_name<V>(s: Seq<(Seq<char>, V)>, name: Seq<char>, v: V)
    ensures
        has_name(insert_named(s, name, v), name),
{
    lemma_insertion_point_bound(s, name);
    let p = insertion_point(s, name) as int;
    assert(insert_named(s, name, v)[p].0 == name);
}

/// Putting in an entry of one name leaves the presence of other names as it was.
pub proof fn lemma_insert_named_other_name<V>(
    s: Seq<(Seq<char>, V)>,
    name: Seq<char>,
    v: V,
    other: Seq<char>,
)
    requires
        other != name,
    ensures
        has_name(insert_named(s, name, v), other) == has_name(s, other),
{
    lemma_insertion_point_bound(s, name);
    let p = insertion_point(s, name) as int;
    let r = insert_named(s, name, v);
    if has_name(s, other) {
        let j = choose|j: int| 0 <= j < s.len() && #[trigger] s[j].0 == other;
        if j < p {
            assert(r[j] == s[j]);
        } else {
            assert(r[j + 1] == s[j]);
        }
    }
    if has_name(r, other) {
        let j = choose|j: int| 0 <= j < r.len() && #[trigger] r[j].0 == other;
        if j < p {
            assert(r[j] == s[j]);
        } else if j > p {
            assert(r[j] == s[j - 1]);
        }
    }
}

/// In an ordered sequence, the entries before the insertion point come
/// before `name` and the others do not.
pub proof fn lemma_insertion_point<V>(s: Seq<(Seq<char>, V)>, name: Seq<char>)
    requires
        names_ordered(s),
    ensures
        insertion_point(s, name) <= s.len(),
        forall|k: int| 0 <= k < insertion_point(s, name) ==> name_lt(#[trigger] s[k].0, name),
        forall|k: int|
            insertion_point(s, name) <= k < s.len() ==> !name_lt(#[trigger] s[k].0, name),
    decreases s.len(),
{
    if s.len() > 0 {
        let p = s.drop_last();
        assert(names_ordered(p)) by {
            assert forall|i: int, j: int| 0 <= i < j < p.len() implies name_lt(
                #[trigger] p[i].0,
                #[trigger] p[j].0,
            ) by {
                assert(p[i] == s[i] && p[j] == s[j]);
            }
        }
        lemma_insertion_point(p, name);
        let last = s.len() - 1;
        if name_lt(s[last].0, name) {
            assert forall|k: int| 0 <= k < last implies name_lt(#[trigger] s[k].0, name) by {
                assert(name_lt(s[k].0, s[last].0));
                lemma_name_lt_transitive(s[k].0, s[last].0, name);
            }
            if insertion_point(p, name) < p.len() {
                let k = insertion_point(p, name) as int;
                assert(p[k] == s[k]);
                assert(name_lt(s[k].0, name));
            }
        }
        assert forall|k: int| 0 <= k < insertion_point(s, name) implies name_lt(
            #[trigger] s[k].0,
            name,
        ) by {
            if k < last {
                assert(p[k] == s[k]);
            }
        }
        assert forall|k: int| insertion_point(s, name) <= k < s.len() implies !name_lt(
            #[trigger] s[k].0,
            name,
        ) by {
            if k < last {
                assert(p[k] == s[k]);
            }
        }
    }
}

/// Putting an entry with a new name in its place keeps the names ordered.
pub proof fn lemma_insert_named_ordered<V>(s: Seq<(Seq<char>, V)>, name: Seq<char>, v: V)
    requires
        names_ordered(s),
        !has_name(s, name),
    ensures
        names_ordered(insert_named(s, name, v)),
        insert_named(s, name, v).len() == s.len() + 1,
{
    lemma_insertion_point(s, name);
    let p = insertion_point(s, name) as int;
    let r = insert_named(s, name, v);
    assert forall|k: int| p <= k < s.len() implies name_lt(name, #[trigger] s[k].0) by {
        if s[k].0 == name {
            assert(has_name(s, name));
        }
        lemma_name_lt_total(s[k].0, name);
    }
    assert forall|i: int, j: int| 0 <= i < j < r.len() implies name_lt(
        #[trigger] r[i].0,
        #[trigger] r[j].0,
    ) by {
        if j < p {
            assert(r[i] == s[i] && r[j] == s[j]);
        } else if j == p {
            assert(r[i] == s[i]);
        } else if i < p {
            assert(r[i] == s[i] && r[j] == s[j - 1]);
            lemma_name_lt_transitive(s[i].0, name, s[j - 1].0);
        } else if i == p {
            assert(r[j] == s[j - 1]);
        } else {
            assert(r[i] == s[i - 1] && r[j] == s[j - 1]);
        }
    }
}

/// Where an entry named `name` stands or would go in ordered entries, and
/// whether it is there.
pub fn find_slot<T: View>(entries: &Vec<(String, T)>, name: &String) -> (r: (usize, bool))
    requires
        names_ordered(entries_view(entries@)),
    ensures
        r.0 <= entries@.len(),
        r.0 == insertion_point(entries_view(entries@), name@),
        r.1 == has_name(entries_view(entries@), name@),
        r.1 ==> entries_view(entries@)[r.0 as int].0 == name@,
{
    let ghost s = entries_view(entries@);
    proof {
        lemma_insertion_point(s, name@);
    }
    let mut i: usize = 0;
    while i < entries.len() && name_less(&entries[i].0, name)
        invariant
            s == entries_view(entries@),
            i <= entries.len(),
            forall|k: int| 0 <= k < i ==> name_lt(#[trigger] s[k].0, name@),
        decreases entries.len() - i,
    {
        i = i + 1;
    }
    let ghost ip = insertion_point(s, name@) as int;
    assert(i == ip) by {
        if i < ip {
            assert(name_lt(s[i as int].0, name@));
        }
        if i > ip {
            assert(name_lt(s[ip].0, name@));
        }
    }
    let found = i < entries.len() && entries[i].0 == *name;
    assert(found == has_name(s, name@)) by {
        if has_name(s, name@) {
            let j = choose|j: int| 0 <= j < s.len() && #[trigger] s[j].0 == name@;
            lemma_name_lt_irreflexive(name@);
            if j > i {
                assert(name_lt(s[i as int].0, s[j].0));
            }
        }
        if found {
            assert(s[i as int].0 == name@);
        }
    }
    (i, found)
}

/// Puts a named entry into ordered entries at its place.
pub fn insert_entry<T: View>(entries: &mut Vec<(String, T)>, at: usize, name: String, value: T)
    requires
        at <= old(entries)@.len(),
    ensures
        entries_view(final(entries)@) == entries_view(old(entries)@).insert(
            at as int,
            (name@, value@),
        ),
{
    let ghost before = entries_view(entries@);
    let ghost entry = (name@, value@);
    entries.insert(at, (name, value));
    assert(entries_view(entries@) =~= before.insert(at as int, entry));
}

} // verus!
