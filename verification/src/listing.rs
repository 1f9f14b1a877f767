//! Directory listings: one entry per name, with a total order that places
//! directories before files and sorts each group lexicographically by
//! codepoint, and a sort that realizes that order.

use vstd::prelude::*;
use vstd::seq_lib::*;
use vstd::string::StrSliceExecFns;

verus! {

/// The mathematical model of a directory entry: the characters of its name
/// and whether it is a directory.
pub struct EntryV {
    pub name: Seq<char>,
    pub is_dir: bool,
}

/// One entry of a directory listing.
#[derive(Debug)]
pub struct DirEntry {
    pub name: String,
    pub is_dir: bool,
}

impl View for DirEntry {
    type V = EntryV;

    open spec fn view(&self) -> EntryV {
        EntryV { name: self.name@, is_dir: self.is_dir }
    }
}

/// The views of a sequence of entries.
pub open spec fn views(s: Seq<DirEntry>) -> Seq<EntryV> {
    s.map_values(|d: DirEntry| d@)
}

/// Lexicographic order on names, by codepoint; a prefix comes before any of
/// its extensions.
pub open spec fn lex_le(a: Seq<char>, b: Seq<char>) -> bool
    decreases a.len(),
{
    if a.len() == 0 {
        true
    } else if b.len() == 0 {
        false
    } else if a[0] == b[0] {
        lex_le(a.drop_first(), b.drop_first())
    } else {
        (a[0] as u32) < (b[0] as u32)
    }
}

/// The listing order: directories before files, each group lexicographic.
pub open spec fn entry_le(a: EntryV, b: EntryV) -> bool {
    if a.is_dir && !b.is_dir {
        true
    } else if !a.is_dir && b.is_dir {
        false
    } else {
        lex_le(a.name, b.name)
    }
}

/// Whether a listing is in the order `entry_le` prescribes.
pub open spec fn entries_sorted(s: Seq<EntryV>) -> bool {
    forall|i: int, j: int| 0 <= i < j < s.len() ==> entry_le(s[i], s[j])
}

/// The name order relates every pair of names.
pub proof fn lemma_lex_le_total(a: Seq<char>, b: Seq<char>)
    ensures
        lex_le(a, b) || lex_le(b, a),
    decreases a.len(),
{
    if a.len() == 0 || b.len() == 0 {
    } else if a[0] == b[0] {
        lemma_lex_le_total(a.drop_first(), b.drop_first());
    } else {
        vstd::utf8::char_u32_cast(a[0], a[0] as u32);
        vstd::utf8::char_u32_cast(b[0], b[0] as u32);
        assert(a[0] as u32 != b[0] as u32);
    }
}

/// Names that the order relates both ways are equal.
pub proof fn lemma_lex_le_antisymm(a: Seq<char>, b: Seq<char>)
    requires
        lex_le(a, b),
        lex_le(b, a),
    ensures
        a == b,
    decreases a.len(),
{
    if a.len() == 0 {
        assert(b.len() == 0);
        assert(a =~= b);
    } else {
        assert(a[0] == b[0]);
        lemma_lex_le_antisymm(a.drop_first(), b.drop_first());
        assert(a.len() == b.len());
        assert forall|i: int| 0 <= i < a.len() implies a[i] == b[i] by {
            if i >= 1 {
                assert(a[i] == a.drop_first()[i - 1]);
                assert(b[i] == b.drop_first()[i - 1]);
            }
        }
        assert(a =~= b);
    }
}

/// The name order is transitive.
pub proof fn lemma_lex_le_trans(a: Seq<char>, b: Seq<char>, c: Seq<char>)
    requires
        lex_le(a, b),
        lex_le(b, c),
    ensures
        lex_le(a, c),
    decreases a.len(),
{
    if a.len() == 0 || b.len() == 0 || c.len() == 0 {
    } else if a[0] == b[0] && b[0] == c[0] {
        lemma_lex_le_trans(a.drop_first(), b.drop_first(), c.drop_first());
    }
}

/// The listing order relates every pair of entries.
pub proof fn lemma_entry_le_total(a: EntryV, b: EntryV)
    ensures
        entry_le(a, b) || entry_le(b, a),
{
    lemma_lex_le_total(a.name, b.name);
}

/// Entries that the listing order relates both ways are the same entry:
/// the order is total, and distinct entries never tie.
pub proof fn lemma_entry_le_antisymm(a: EntryV, b: EntryV)
    requires
        entry_le(a, b),
        entry_le(b, a),
    ensures
        a.name == b.name,
        a.is_dir == b.is_dir,
{
    lemma_lex_le_antisymm(a.name, b.name);
}

/// The listing order is transitive.
pub proof fn lemma_entry_le_trans(a: EntryV, b: EntryV, c: EntryV)
    requires
        entry_le(a, b),
        entry_le(b, c),
    ensures
        entry_le(a, c),
{
    if a.is_dir == b.is_dir && b.is_dir == c.is_dir {
        lemma_lex_le_trans(a.name, b.name, c.name);
    }
}

/// Insertion of one entry into a listing that is already in order.
pub open spec fn insert_sorted(e: EntryV, s: Seq<EntryV>) -> Seq<EntryV>
    decreases s.len(),
{
    if s.len() == 0 {
        seq![e]
    } else if entry_le(e, s[0]) {
        seq![e] + s
    } else {
        seq![s[0]] + insert_sorted(e, s.drop_first())
    }
}

/// The listing in the order `entry_le` prescribes, by insertion.
pub open spec fn sort_entries_spec(s: Seq<EntryV>) -> Seq<EntryV>
    decreases s.len(),
{
    if s.len() == 0 {
        Seq::empty()
    } else {
        insert_sorted(s[0], sort_entries_spec(s.drop_first()))
    }
}

/// Inserting keeps every entry: the result holds the inserted entry once
/// more, and everything else as often as before.
pub proof fn lemma_insert_sorted_multiset(e: EntryV, s: Seq<EntryV>)
    ensures
        insert_sorted(e, s).len() == s.len() + 1,
        insert_sorted(e, s).to_multiset() == s.to_multiset().insert(e),
    decreases s.len(),
{
    broadcast use group_to_multiset_ensures;
    broadcast use vstd::multiset::group_multiset_axioms;

    if s.len() == 0 {
        assert(seq![e] =~= Seq::<EntryV>::empty().push(e));
        assert(insert_sorted(e, s).to_multiset() =~= s.to_multiset().insert(e));
    } else if entry_le(e, s[0]) {
        lemma_multiset_commutative(seq![e], s);
        assert(seq![e] =~= Seq::<EntryV>::empty().push(e));
        assert(insert_sorted(e, s).to_multiset() =~= s.to_multiset().insert(e));
    } else {
        lemma_insert_sorted_multiset(e, s.drop_first());
        lemma_multiset_commutative(seq![s[0]], insert_sorted(e, s.drop_first()));
        assert(seq![s[0]] =~= Seq::<EntryV>::empty().push(s[0]));
        assert(s =~= seq![s[0]] + s.drop_first());
        lemma_multiset_commutative(seq![s[0]], s.drop_first());
        assert(insert_sorted(e, s).to_multiset() =~= s.to_multiset().insert(e));
    }
}

/// Inserting into an ordered listing keeps it ordered.
pub proof fn lemma_insert_sorted_sorted(e: EntryV, s: Seq<EntryV>)
    requires
        entries_sorted(s),
    ensures
        entries_sorted(insert_sorted(e, s)),
    decreases s.len(),
{
    broadcast use group_to_multiset_ensures;

    if s.len() == 0 {
    } else if entry_le(e, s[0]) {
        let r = seq![e] + s;
        assert forall|i: int, j: int| 0 <= i < j < r.len() implies entry_le(r[i], r[j]) by {
            if i == 0 {
                if j > 1 {
                    lemma_entry_le_trans(e, s[0], s[j - 1]);
                }
            }
        }
    } else {
        lemma_entry_le_total(e, s[0]);
        assert(entry_le(s[0], e));
        let rest = s.drop_first();
        assert(entries_sorted(rest)) by {
            assert(forall|i: int, j: int|
                0 <= i < j < rest.len() ==> #[trigger] entry_le(rest[i], rest[j]) == entry_le(
                    s[i + 1],
                    s[j + 1],
                ));
        }
        lemma_insert_sorted_sorted(e, rest);
        lemma_insert_sorted_multiset(e, rest);
        let t = insert_sorted(e, rest);
        // every entry of the tail is either the inserted one or one of the rest,
        // and the old head comes before all of them
        assert forall|j: int| 0 <= j < t.len() implies entry_le(s[0], t[j]) by {
            assert(t.contains(t[j]));
            assert(t.to_multiset().count(t[j]) > 0);
            if t[j] == e {
            } else {
                assert(rest.to_multiset().count(t[j]) > 0);
                assert(rest.contains(t[j]));
                let k = choose|k: int| 0 <= k < rest.len() && rest[k] == t[j];
                assert(entry_le(s[0], s[k + 1]));
            }
        }
        let r = seq![s[0]] + t;
        assert forall|i: int, j: int| 0 <= i < j < r.len() implies entry_le(r[i], r[j]) by {
            if i > 0 {
                assert(r[i] == t[i - 1] && r[j] == t[j - 1]);
            }
        }
    }
}

/// Sorting is a permutation into the prescribed order: same length, same
/// entries with the same multiplicities, and the result is ordered.
pub proof fn lemma_sort_entries_spec(s: Seq<EntryV>)
    ensures
        sort_entries_spec(s).len() == s.len(),
        sort_entries_spec(s).to_multiset() == s.to_multiset(),
        entries_sorted(sort_entries_spec(s)),
    decreases s.len(),
{
    broadcast use group_to_multiset_ensures;

    if s.len() == 0 {
        assert(sort_entries_spec(s).to_multiset() =~= s.to_multiset());
    } else {
        let rest = s.drop_first();
        lemma_sort_entries_spec(rest);
        lemma_insert_sorted_multiset(s[0], sort_entries_spec(rest));
        lemma_insert_sorted_sorted(s[0], sort_entries_spec(rest));
        assert(s =~= seq![s[0]] + rest);
        lemma_multiset_commutative(seq![s[0]], rest);
        assert(seq![s[0]] =~= Seq::<EntryV>::empty().push(s[0]));
        assert(sort_entries_spec(s).to_multiset() =~= s.to_multiset());
    }
}

/// The listing order is canonical: two ordered listings holding the same
/// entries with the same multiplicities are the same listing. There is
/// exactly one way to present a directory.
pub proof fn lemma_sorted_unique(a: Seq<EntryV>, b: Seq<EntryV>)
    requires
        entries_sorted(a),
        entries_sorted(b),
        a.to_multiset() == b.to_multiset(),
    ensures
        a == b,
    decreases a.len(),
{
    broadcast use group_to_multiset_ensures;

    if a.len() == 0 {
        assert(b.to_multiset().len() == 0);
        assert(a =~= b);
    } else {
        assert(a.to_multiset().len() == a.len());
        assert(b.to_multiset().len() == b.len());
        assert(b.len() > 0);
        // the order is reflexive, by totality applied to an entry and itself
        lemma_entry_le_total(a[0], a[0]);
        lemma_entry_le_total(b[0], b[0]);
        // each head is a minimal entry of the shared multiset, so they agree
        assert(a.contains(a[0]));
        assert(b.to_multiset().count(a[0]) > 0);
        assert(b.contains(a[0]));
        let ka = choose|k: int| 0 <= k < b.len() && b[k] == a[0];
        assert(ka == 0 || entry_le(b[0], b[ka]));
        assert(entry_le(b[0], a[0]));
        assert(b.contains(b[0]));
        assert(a.to_multiset().count(b[0]) > 0);
        assert(a.contains(b[0]));
        let kb = choose|k: int| 0 <= k < a.len() && a[k] == b[0];
        assert(kb == 0 || entry_le(a[0], a[kb]));
        assert(entry_le(a[0], b[0]));
        lemma_entry_le_antisymm(a[0], b[0]);
        assert(a[0] == b[0]);
        // drop the shared head and recur
        let ta = a.drop_first();
        let tb = b.drop_first();
        assert(ta =~= a.remove(0));
        assert(tb =~= b.remove(0));
        assert(ta.to_multiset() =~= a.to_multiset().remove(a[0]));
        assert(tb.to_multiset() =~= b.to_multiset().remove(b[0]));
        assert(entries_sorted(ta)) by {
            assert(forall|i: int, j: int|
                0 <= i < j < ta.len() ==> #[trigger] entry_le(ta[i], ta[j]) == entry_le(
                    a[i + 1],
                    a[j + 1],
                ));
        }
        assert(entries_sorted(tb)) by {
            assert(forall|i: int, j: int|
                0 <= i < j < tb.len() ==> #[trigger] entry_le(tb[i], tb[j]) == entry_le(
                    b[i + 1],
                    b[j + 1],
                ));
        }
        lemma_sorted_unique(ta, tb);
        assert forall|i: int| 0 <= i < a.len() implies a[i] == b[i] by {
            if i >= 1 {
                assert(a[i] == ta[i - 1]);
                assert(b[i] == tb[i - 1]);
            }
        }
        assert(a =~= b);
    }
}

/// Whether name `a` comes no later than name `b` in the listing order.
pub fn lex_le_str(a: &str, b: &str) -> (r: bool)
    ensures
        r == lex_le(a@, b@),
    decreases a@.len(),
{
    let alen = a.unicode_len();
    let blen = b.unicode_len();
    if alen == 0 {
        true
    } else if blen == 0 {
        false
    } else {
        let ca = a.get_char(0);
        let cb = b.get_char(0);
        if ca == cb {
            let a2 = a.substring_char(1, alen);
            let b2 = b.substring_char(1, blen);
            proof {
                assert(a2@ =~= a@.drop_first());
                assert(b2@ =~= b@.drop_first());
            }
            lex_le_str(a2, b2)
        } else {
            (ca as u32) < (cb as u32)
        }
    }
}

/// Whether entry `a` comes no later than entry `b` in the listing order.
pub fn entry_le_exec(a: &DirEntry, b: &DirEntry) -> (r: bool)
    ensures
        r == entry_le(a@, b@),
{
    if a.is_dir && !b.is_dir {
        true
    } else if !a.is_dir && b.is_dir {
        false
    } else {
        lex_le_str(a.name.as_str(), b.name.as_str())
    }
}

fn insert_entry(e: DirEntry, v: Vec<DirEntry>) -> (r: Vec<DirEntry>)
    ensures
        views(r@) == insert_sorted(e@, views(v@)),
    decreases v@.len(),
{
    let mut v = v;
    let ghost start = v@;
    if v.len() == 0 {
        v.push(e);
        proof {
            assert(views(v@) =~= insert_sorted(e@, views(start)));
        }
        v
    } else if entry_le_exec(&e, &v[0]) {
        let ghost before = v@;
        v.insert(0, e);
        proof {
            assert(views(v@) =~= seq![e@] + views(before));
        }
        v
    } else {
        let ghost before = v@;
        let h = v.remove(0);
        proof {
            assert(views(v@) =~= views(before).drop_first());
        }
        let r = insert_entry(e, v);
        let mut r = r;
        let ghost mid = r@;
        r.insert(0, h);
        proof {
            assert(views(r@) =~= seq![h@] + views(mid));
        }
        r
    }
}

/// Sort a listing into the order `entry_le` prescribes: directories first,
/// then files, each group lexicographically by codepoint. The result is the
/// unique ordered permutation of the input.
pub fn sort_entries(v: Vec<DirEntry>) -> (r: Vec<DirEntry>)
    ensures
        views(r@) == sort_entries_spec(views(v@)),
        entries_sorted(views(r@)),
        views(r@).to_multiset() == views(v@).to_multiset(),
        r@.len() == v@.len(),
    decreases v@.len(),
{
    proof {
        lemma_sort_entries_spec(views(v@));
    }
    let mut v = v;
    if v.len() == 0 {
        v
    } else {
        let ghost before = v@;
        let h = v.remove(0);
        proof {
            assert(views(v@) =~= views(before).drop_first());
        }
        let rest = sort_entries(v);
        let r = insert_entry(h, rest);
        proof {
            broadcast use vstd::seq_lib::group_to_multiset_ensures;

            lemma_sort_entries_spec(views(before));
        }
        r
    }
}

} // verus!
