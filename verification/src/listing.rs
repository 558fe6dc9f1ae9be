//! Tables of the acts and of their key bindings, sorted by act name.
use crate::acts::Act;
use crate::chars::{push_str, to_chars};
use crate::hotkey::{copy_string, hotkey_display};
use vstd::prelude::*;

verus! {

/// `a` comes no later than `b` in dictionary order of their characters.
pub open spec fn chars_le(a: Seq<char>, b: Seq<char>) -> bool
    decreases a.len(),
{
    if a.len() == 0 {
        true
    } else if b.len() == 0 {
        false
    } else if a[0] != b[0] {
        (a[0] as int) < (b[0] as int)
    } else {
        chars_le(a.drop_first(), b.drop_first())
    }
}

/// The dictionary order is total.
pub proof fn lemma_chars_le_total(a: Seq<char>, b: Seq<char>)
    ensures
        chars_le(a, b) || chars_le(b, a),
    decreases a.len(),
{
    if a.len() > 0 && b.len() > 0 && a[0] == b[0] {
        lemma_chars_le_total(a.drop_first(), b.drop_first());
    }
}

/// The dictionary order is reflexive.
pub proof fn lemma_chars_le_refl(a: Seq<char>)
    ensures
        chars_le(a, a),
    decreases a.len(),
{
    if a.len() > 0 {
        lemma_chars_le_refl(a.drop_first());
    }
}

/// The dictionary order is transitive.
pub proof fn lemma_chars_le_trans(a: Seq<char>, b: Seq<char>, c: Seq<char>)
    requires
        chars_le(a, b),
        chars_le(b, c),
    ensures
        chars_le(a, c),
    decreases a.len(),
{
    if a.len() > 0 && b.len() > 0 && c.len() > 0 && a[0] == b[0] && b[0] == c[0] {
        lemma_chars_le_trans(a.drop_first(), b.drop_first(), c.drop_first());
    }
}

/// Compares two character sequences in dictionary order.
pub fn chars_le_exec(a: &[char], b: &[char]) -> (r: bool)
    ensures
        r == chars_le(a@, b@),
{
    let mut i: usize = 0;
    assert(a@.skip(0) =~= a@);
    assert(b@.skip(0) =~= b@);
    while i < a.len()
        invariant
            i <= a@.len(),
            i <= b@.len(),
            chars_le(a@, b@) == chars_le(a@.skip(i as int), b@.skip(i as int)),
        decreases a@.len() - i,
    {
        if i >= b.len() {
            return false;
        }
        let x = a[i];
        let y = b[i];
        assert(a@.skip(i as int)[0] == x);
        assert(b@.skip(i as int)[0] == y);
        if x != y {
            return x < y;
        }
        assert(a@.skip(i as int).drop_first() =~= a@.skip(i + 1));
        assert(b@.skip(i as int).drop_first() =~= b@.skip(i + 1));
        i = i + 1;
    }
    true
}

/// `order` lists every index of `names` once, sorted by name, and equal names
/// keep the order they had.
pub open spec fn sorted_stable(names: Seq<Seq<char>>, order: Seq<usize>) -> bool {
    &&& order.len() == names.len()
    &&& order.no_duplicates()
    &&& forall|k: int| 0 <= k < order.len() ==> order[k] < names.len()
    &&& forall|i: int, j: int|
        0 <= i < j < order.len() ==> chars_le(#[trigger] names[order[i] as int], #[trigger] names[order[j] as int])
    &&& forall|i: int, j: int|
        0 <= i < j < order.len() && names[order[i] as int] == names[order[j] as int] ==> order[i] < order[j]
}

/// The indices of `names` sorted by name, equal names in their first order
/// (a stable sort).
pub fn sort_by_name(names: &Vec<Vec<char>>) -> (order: Vec<usize>)
    ensures
        sorted_stable(names@.map_values(|n: Vec<char>| n@), order@),
{
    let ghost ns = names@.map_values(|n: Vec<char>| n@);
    let mut order: Vec<usize> = Vec::new();
    let mut i: usize = 0;
    while i < names.len()
        invariant
            ns == names@.map_values(|n: Vec<char>| n@),
            i <= names@.len(),
            order@.len() == i,
            order@.no_duplicates(),
            forall|k: int| 0 <= k < order@.len() ==> order@[k] < i,
            forall|a: int, b: int|
                0 <= a < b < order@.len() ==> chars_le(#[trigger] ns[order@[a] as int], #[trigger] ns[order@[b] as int]),
            forall|a: int, b: int|
                0 <= a < b < order@.len() && ns[order@[a] as int] == ns[order@[b] as int] ==> order@[a] < order@[b],
        decreases names@.len() - i,
    {
        let mut pos: usize = 0;
        while pos < order.len() && chars_le_exec(names[order[pos]].as_slice(), names[i].as_slice())
            invariant
                ns == names@.map_values(|n: Vec<char>| n@),
                i < names@.len(),
                pos <= order@.len(),
                order@.len() == i,
                order@.no_duplicates(),
                forall|k: int| 0 <= k < order@.len() ==> order@[k] < i,
                forall|a: int, b: int|
                    0 <= a < b < order@.len() ==> chars_le(#[trigger] ns[order@[a] as int], #[trigger] ns[order@[b] as int]),
                forall|a: int, b: int|
                    0 <= a < b < order@.len() && ns[order@[a] as int] == ns[order@[b] as int] ==> order@[a] < order@[b],
                forall|k: int| 0 <= k < pos ==> chars_le(#[trigger] ns[order@[k] as int], ns[i as int]),
            decreases order@.len() - pos,
        {
            pos = pos + 1;
        }
        let ghost before = order@;
        proof {
            if pos < before.len() {
                lemma_chars_le_total(ns[before[pos as int] as int], ns[i as int]);
                assert forall|k: int| pos <= k < before.len() implies !chars_le(
                    #[trigger] ns[before[k] as int],
                    ns[i as int],
                ) && chars_le(ns[i as int], ns[before[k] as int]) by {
                    if k > pos {
                        assert(chars_le(ns[before[pos as int] as int], ns[before[k] as int]));
                        lemma_chars_le_trans(ns[i as int], ns[before[pos as int] as int], ns[before[k] as int]);
                        if chars_le(ns[before[k] as int], ns[i as int]) {
                            lemma_chars_le_trans(ns[before[pos as int] as int], ns[before[k] as int], ns[i as int]);
                        }
                    }
                }
            }
        }
        order.insert(pos, i);
        proof {
            let after = order@;
            assert(after == before.insert(pos as int, i));
            assert forall|k: int| 0 <= k < after.len() implies after[k] <= i by {}
            assert forall|a: int, b: int| 0 <= a < b < after.len() implies after[a] != after[b] by {
                if a < pos && b < pos {
                } else if a < pos && b == pos {
                } else if a < pos {
                    assert(after[b] == before[b - 1]);
                } else if a == pos {
                    assert(after[b] == before[b - 1]);
                } else {
                    assert(after[a] == before[a - 1]);
                    assert(after[b] == before[b - 1]);
                }
            }
            assert forall|a: int, b: int|
                0 <= a < b < after.len() implies chars_le(#[trigger] ns[after[a] as int], #[trigger] ns[after[b] as int])
                && (ns[after[a] as int] == ns[after[b] as int] ==> after[a] < after[b]) by {
                if a < pos && b < pos {
                } else if a < pos && b == pos {
                } else if a < pos {
                    assert(after[b] == before[b - 1]);
                } else if a == pos {
                    assert(after[b] == before[b - 1]);
                    if ns[after[a] as int] == ns[after[b] as int] {
                        lemma_chars_le_refl(ns[i as int]);
                    }
                } else {
                    assert(after[a] == before[a - 1]);
                    assert(after[b] == before[b - 1]);
                }
            }
        }
        i = i + 1;
    }
    order
}

/// The contents of a table: rows of two cells.
pub open spec fn rows_view(rows: Seq<(String, String)>) -> Seq<(Seq<char>, Seq<char>)> {
    Seq::new(rows.len(), |i: int| (rows[i].0@, rows[i].1@))
}

/// How the table library lays out rows of two cells in the format `format`.
pub uninterp spec fn table_text(format: Seq<char>, rows: Seq<(Seq<char>, Seq<char>)>) -> Seq<char>;

/// The text of a table of two left-aligned columns (`tabular::Table::new`,
/// `add_row` of each row and `Display`); a function of the rows. The table
/// panics on a malformed format, so the one format used here is required.
#[verifier::external_body]
fn two_column_table(format: &str, rows: &Vec<(String, String)>) -> (s: String)
    requires
        format@ == "{:<}  {:<}"@,
    ensures
        s@ == table_text(format@, rows_view(rows@)),
{
    let mut table = tabular::Table::new(format);
    for (a, b) in rows.iter() {
        table.add_row(tabular::Row::new().with_cell(a).with_cell(b));
    }
    format!("{}", table)
}

/// The names of the acts.
pub open spec fn act_names(acts: Seq<Act>) -> Seq<Seq<char>> {
    Seq::new(acts.len(), |i: int| acts[i].name@)
}

/// The rows of one act: its name beside its first binding and nothing beside
/// the others, or its name alone if it has no binding.
pub open spec fn act_rows(a: Act) -> Seq<(Seq<char>, Seq<char>)> {
    if a.hotkeys@.len() == 0 {
        seq![(a.name@, Seq::empty())]
    } else {
        Seq::new(
            a.hotkeys@.len(),
            |k: int| (if k == 0 { a.name@ } else { Seq::empty() }, hotkey_display(a.hotkeys@[k]@)),
        )
    }
}

/// The rows of the acts in the order given.
pub open spec fn acts_rows(acts: Seq<Act>, order: Seq<usize>) -> Seq<(Seq<char>, Seq<char>)>
    decreases order.len(),
{
    if order.len() == 0 {
        Seq::empty()
    } else {
        acts_rows(acts, order.drop_last()) + act_rows(acts[order.last() as int])
    }
}

/// The heading and rows of the act table.
pub open spec fn act_table(acts: Seq<Act>, order: Seq<usize>) -> Seq<(Seq<char>, Seq<char>)> {
    seq![("ACT "@, "KEY BINDING"@)] + acts_rows(acts, order)
}

fn string_of(s: &str) -> (t: String)
    ensures
        t@ == s@,
{
    let mut t = String::new();
    push_str(&mut t, s);
    t
}

fn names_chars(acts: &[Act]) -> (v: Vec<Vec<char>>)
    ensures
        v@.map_values(|n: Vec<char>| n@) == act_names(acts@),
{
    let mut v: Vec<Vec<char>> = Vec::new();
    let mut i: usize = 0;
    while i < acts.len()
        invariant
            i <= acts@.len(),
            v@.map_values(|n: Vec<char>| n@) == act_names(acts@).take(i as int),
        decreases acts@.len() - i,
    {
        let c = to_chars(acts[i].name.as_str());
        assert(c@ == act_names(acts@)[i as int]);
        let ghost prev = v@;
        v.push(c);
        assert(v@.map_values(|n: Vec<char>| n@) =~= prev.map_values(|n: Vec<char>| n@).push(c@));
        assert(act_names(acts@).take(i + 1) =~= act_names(acts@).take(i as int).push(act_names(acts@)[i as int]));
        i = i + 1;
    }
    assert(act_names(acts@).take(acts@.len() as int) =~= act_names(acts@));
    v
}

fn push_act_rows(rows: &mut Vec<(String, String)>, a: &Act)
    ensures
        rows_view(final(rows)@) == rows_view(old(rows)@) + act_rows(*a),
{
    if a.hotkeys.len() == 0 {
        rows.push((copy_string(&a.name), String::new()));
        assert(rows_view(rows@) =~= rows_view(old(rows)@) + act_rows(*a));
    } else {
        let mut k: usize = 0;
        while k < a.hotkeys.len()
            invariant
                k <= a.hotkeys@.len(),
                a.hotkeys@.len() > 0,
                rows_view(rows@) == rows_view(old(rows)@) + act_rows(*a).take(k as int),
            decreases a.hotkeys@.len() - k,
        {
            let name = if k == 0 {
                copy_string(&a.name)
            } else {
                String::new()
            };
            let d = a.hotkeys[k].display();
            assert((name@, d@) == act_rows(*a)[k as int]);
            let ghost prev = rows@;
            rows.push((name, d));
            assert(rows_view(rows@) =~= rows_view(prev).push((name@, d@)));
            assert(act_rows(*a).take(k + 1) =~= act_rows(*a).take(k as int).push(act_rows(*a)[k as int]));
            k = k + 1;
        }
        assert(act_rows(*a).take(a.hotkeys@.len() as int) =~= act_rows(*a));
    }
}

/// List acts currently operant: a table of each act, sorted by name, with
/// its key bindings.
pub fn list_acts(acts: &[Act]) -> (s: String)
    ensures
        exists|order: Seq<usize>|
            sorted_stable(act_names(acts@), order) && s@ == table_text(
                "{:<}  {:<}"@,
                act_table(acts@, order),
            ),
{
    let names = names_chars(acts);
    let order = sort_by_name(&names);
    let mut rows: Vec<(String, String)> = Vec::new();
    rows.push((string_of("ACT "), string_of("KEY BINDING")));
    let mut i: usize = 0;
    while i < order.len()
        invariant
            i <= order@.len(),
            sorted_stable(act_names(acts@), order@),
            rows_view(rows@) == seq![("ACT "@, "KEY BINDING"@)] + acts_rows(acts@, order@.take(i as int)),
        decreases order@.len() - i,
    {
        assert(order@.take(i + 1).drop_last() =~= order@.take(i as int));
        push_act_rows(&mut rows, &acts[order[i]]);
        i = i + 1;
        assert(rows_view(rows@) =~= seq![("ACT "@, "KEY BINDING"@)] + acts_rows(acts@, order@.take(i as int)));
    }
    assert(order@.take(order@.len() as int) =~= order@);
    let format = "{:<}  {:<}";
    two_column_table(format, &rows)
}

/// Each key binding with the name of its act, act by act and binding by
/// binding.
pub open spec fn binding_pairs(acts: Seq<Act>) -> Seq<(Seq<char>, Seq<char>)>
    decreases acts.len(),
{
    if acts.len() == 0 {
        Seq::empty()
    } else {
        let a = acts.last();
        binding_pairs(acts.drop_last()) + Seq::new(
            a.hotkeys@.len(),
            |k: int| (hotkey_display(a.hotkeys@[k]@), a.name@),
        )
    }
}

/// The act names of the binding pairs.
pub open spec fn pair_names(pairs: Seq<(Seq<char>, Seq<char>)>) -> Seq<Seq<char>> {
    Seq::new(pairs.len(), |i: int| pairs[i].1)
}

/// The rows of the binding pairs in the order given; an act name equal to
/// the one in the row before is left out.
pub open spec fn ibid_rows(pairs: Seq<(Seq<char>, Seq<char>)>, order: Seq<usize>) -> Seq<(Seq<char>, Seq<char>)>
    decreases order.len(),
{
    if order.len() == 0 {
        Seq::empty()
    } else {
        let p = pairs[order.last() as int];
        let before = if order.len() >= 2 {
            pairs[order[order.len() - 2] as int].1
        } else {
            Seq::empty()
        };
        ibid_rows(pairs, order.drop_last()).push(
            (p.0, if before == p.1 { Seq::empty() } else { p.1 }),
        )
    }
}

/// The heading and rows of the key binding table.
pub open spec fn binding_table(pairs: Seq<(Seq<char>, Seq<char>)>, order: Seq<usize>) -> Seq<(Seq<char>, Seq<char>)> {
    seq![("KEY BINDING "@, "ACT"@)] + ibid_rows(pairs, order)
}

fn collect_pairs(acts: &[Act]) -> (v: Vec<(String, String)>)
    ensures
        rows_view(v@) == binding_pairs(acts@),
{
    let mut v: Vec<(String, String)> = Vec::new();
    let mut i: usize = 0;
    while i < acts.len()
        invariant
            i <= acts@.len(),
            rows_view(v@) == binding_pairs(acts@.take(i as int)),
        decreases acts@.len() - i,
    {
        let a = &acts[i];
        let ghost start = rows_view(v@);
        let mut k: usize = 0;
        while k < a.hotkeys.len()
            invariant
                k <= a.hotkeys@.len(),
                rows_view(v@) == start + Seq::new(
                    k as nat,
                    |j: int| (hotkey_display(a.hotkeys@[j]@), a.name@),
                ),
            decreases a.hotkeys@.len() - k,
        {
            let d = a.hotkeys[k].display();
            let n = copy_string(&a.name);
            let ghost prev = v@;
            v.push((d, n));
            assert(rows_view(v@) =~= rows_view(prev).push((d@, n@)));
            k = k + 1;
            assert(Seq::new(k as nat, |j: int| (hotkey_display(a.hotkeys@[j]@), a.name@)) =~= Seq::new(
                (k - 1) as nat,
                |j: int| (hotkey_display(a.hotkeys@[j]@), a.name@),
            ).push((d@, n@)));
        }
        assert(acts@.take(i + 1).drop_last() =~= acts@.take(i as int));
        assert(acts@.take(i + 1).last() == acts@[i as int]);
        i = i + 1;
    }
    assert(acts@.take(acts@.len() as int) =~= acts@);
    v
}

/// List key bindings available: each binding beside its act, sorted by act
/// name, an act's name shown once for its run of bindings.
pub fn list_key_bindings(acts: &[Act]) -> (s: String)
    ensures
        exists|order: Seq<usize>|
            sorted_stable(pair_names(binding_pairs(acts@)), order) && s@ == table_text(
                "{:<}  {:<}"@,
                binding_table(binding_pairs(acts@), order),
            ),
{
    let pairs = collect_pairs(acts);
    let ghost pv = rows_view(pairs@);
    let mut names: Vec<Vec<char>> = Vec::new();
    let mut i: usize = 0;
    while i < pairs.len()
        invariant
            pv == rows_view(pairs@),
            i <= pairs@.len(),
            names@.map_values(|n: Vec<char>| n@) == pair_names(pv).take(i as int),
        decreases pairs@.len() - i,
    {
        let c = to_chars(pairs[i].1.as_str());
        assert(c@ == pair_names(pv)[i as int]);
        let ghost prev = names@;
        names.push(c);
        assert(names@.map_values(|n: Vec<char>| n@) =~= prev.map_values(|n: Vec<char>| n@).push(c@));
        assert(pair_names(pv).take(i + 1) =~= pair_names(pv).take(i as int).push(pair_names(pv)[i as int]));
        i = i + 1;
    }
    assert(pair_names(pv).take(pairs@.len() as int) =~= pair_names(pv));
    let order = sort_by_name(&names);
    let mut rows: Vec<(String, String)> = Vec::new();
    rows.push((string_of("KEY BINDING "), string_of("ACT")));
    let mut k: usize = 0;
    while k < order.len()
        invariant
            pv == rows_view(pairs@),
            names@.map_values(|n: Vec<char>| n@) == pair_names(pv),
            names@.len() == pv.len(),
            k <= order@.len(),
            sorted_stable(pair_names(pv), order@),
            rows_view(rows@) == seq![("KEY BINDING "@, "ACT"@)] + ibid_rows(pv, order@.take(k as int)),
        decreases order@.len() - k,
    {
        let j = order[k];
        let same = k > 0 && crate::chars::chars_eq(
            names[order[k - 1]].as_slice(),
            names[j].as_slice(),
        );
        let prev_empty = k == 0 && pairs[j].1.as_str().unicode_len() == 0;
        let shown = if same || prev_empty {
            String::new()
        } else {
            copy_string(&pairs[j].1)
        };
        let b = copy_string(&pairs[j].0);
        let ghost prev = rows@;
        rows.push((b, shown));
        assert(rows_view(rows@) =~= rows_view(prev).push((b@, shown@)));
        proof {
            let t = order@.take(k + 1);
            assert(t.drop_last() =~= order@.take(k as int));
            assert(t.last() == j);
            if k > 0 {
                assert(t[t.len() - 2] == order@[k - 1]);
            }
            let p = pv[j as int];
            let before = if k >= 1 {
                pv[order@[k - 1] as int].1
            } else {
                Seq::<char>::empty()
            };
            assert(names@.map_values(|n: Vec<char>| n@)[j as int] == pair_names(pv)[j as int]);
            assert(names@[j as int]@ == p.1);
            if k > 0 {
                let q = order@[k - 1] as int;
                assert(names@.map_values(|n: Vec<char>| n@)[q] == pair_names(pv)[q]);
                assert(names@[q]@ == before);
            }
            if k == 0 && p.1.len() == 0 {
                assert(p.1 =~= Seq::<char>::empty());
            }
            assert(shown@ == (if before == p.1 { Seq::<char>::empty() } else { p.1 }));
        }
        k = k + 1;
        assert(rows_view(rows@) =~= seq![("KEY BINDING "@, "ACT"@)] + ibid_rows(pv, order@.take(k as int)));
    }
    assert(order@.take(order@.len() as int) =~= order@);
    let format = "{:<}  {:<}";
    two_column_table(format, &rows)
}

} // verus!
