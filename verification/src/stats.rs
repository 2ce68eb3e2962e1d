//! Counts over a parsed module: how many items of each kind it declares,
//! how many it exports, and which paths it imports.

use crate::text::{chars_of, same_text};
use crate::ast::{
    import_string_arg, item_view, lemma_items_view_index, ItemKind, Module, SItem, SItemKind,
};
use vstd::prelude::*;

verus! {

/// Where an item of kind `k` is counted: import, function, predicate,
/// operator, type, enum, const, var.
pub open spec fn kind_slot(k: SItemKind) -> nat {
    match k {
        SItemKind::Import(_) => 0,
        SItemKind::Function(_) => 1,
        SItemKind::Predicate(_) => 2,
        SItemKind::Operator(_) => 3,
        SItemKind::Type(_) => 4,
        SItemKind::Enum(_) => 5,
        SItemKind::Const(_) => 6,
        SItemKind::Var(_) => 7,
    }
}

/// How many of `items` are counted in `slot`.
pub open spec fn count_slot(items: Seq<SItem>, slot: nat) -> nat
    decreases items.len(),
{
    if items.len() == 0 {
        0
    } else {
        count_slot(items.drop_last(), slot) + if kind_slot(items.last().kind) == slot {
            1nat
        } else {
            0nat
        }
    }
}

/// How many of `items` are exported.
pub open spec fn count_exported(items: Seq<SItem>) -> nat
    decreases items.len(),
{
    if items.len() == 0 {
        0
    } else {
        count_exported(items.drop_last()) + if items.last().export {
            1nat
        } else {
            0nat
        }
    }
}

/// The `path` arguments of the imports among `items`, in order; an import
/// without a string `path` adds none.
pub open spec fn import_paths(items: Seq<SItem>) -> Seq<Seq<char>>
    decreases items.len(),
{
    if items.len() == 0 {
        Seq::empty()
    } else {
        import_paths(items.drop_last()) + match items.last().kind {
            SItemKind::Import(i) => match import_string_arg(i, "path"@) {
                Some(p) => seq![p],
                None => Seq::empty(),
            },
            _ => Seq::empty(),
        }
    }
}

/// What [`module_stats`] reports of one module.
pub struct ModuleStats {
    /// Items of each kind: import, function, predicate, operator, type, enum,
    /// const, var.
    pub counts: Vec<usize>,
    /// Exported items.
    pub exported: usize,
    /// The imported paths, in order.
    pub import_paths: Vec<String>,
}

/// Counts the items of `m` by kind, its exported items, and lists the paths
/// it imports.
pub fn module_stats(m: &Module) -> (r: ModuleStats)
    ensures
        r.counts@.len() == 8,
        forall|k: int| 0 <= k < 8 ==> #[trigger] r.counts@[k] == count_slot(m@.items, k as nat),
        r.exported == count_exported(m@.items),
        r.import_paths@.len() == import_paths(m@.items).len(),
        forall|j: int|
            0 <= j < r.import_paths@.len() ==> #[trigger] r.import_paths@[j]@ == import_paths(
                m@.items,
            )[j],
{
    let ghost vs = m@.items;
    proof {
        lemma_items_view_index(m.items@);
        assert(vs.take(0) =~= Seq::<SItem>::empty());
    }
    let mut counts: Vec<usize> = vec![0, 0, 0, 0, 0, 0, 0, 0];
    let mut exported: usize = 0;
    let mut paths: Vec<String> = Vec::new();
    let n = m.items.len();
    let mut i: usize = 0;
    while i < n
        invariant
            n == m.items@.len(),
            vs == m@.items,
            vs.len() == n,
            forall|j: int| 0 <= j < n ==> #[trigger] vs[j] == item_view(m.items@[j]),
            i <= n,
            counts@.len() == 8,
            forall|k: int| 0 <= k < 8 ==> #[trigger] counts@[k] == count_slot(vs.take(i as int), k as nat),
            forall|k: int| 0 <= k < 8 ==> #[trigger] counts@[k] <= i,
            exported == count_exported(vs.take(i as int)),
            exported <= i,
            paths@.len() == import_paths(vs.take(i as int)).len(),
            forall|j: int|
                0 <= j < paths@.len() ==> #[trigger] paths@[j]@ == import_paths(vs.take(i as int))[j],
        decreases n - i,
    {
        let item = &m.items[i];
        let ghost before = vs.take(i as int);
        let ghost after = vs.take(i + 1);
        proof {
            assert(after.drop_last() =~= before);
            assert(after.last() == vs[i as int]);
        }
        let slot: usize = match &item.kind {
            ItemKind::Import(_) => 0,
            ItemKind::Function(_) => 1,
            ItemKind::Predicate(_) => 2,
            ItemKind::Operator(_) => 3,
            ItemKind::Type(_) => 4,
            ItemKind::Enum(_) => 5,
            ItemKind::Const(_) => 6,
            ItemKind::Var(_) => 7,
        };
        assert(slot == kind_slot(vs[i as int].kind));
        let c = counts[slot];
        counts.set(slot, c + 1);
        if item.export {
            exported = exported + 1;
        }
        let ghost old_paths = paths@;
        if let ItemKind::Import(imp) = &item.kind {
            if let Some(p) = imp.path() {
                paths.push(p.to_owned());
            }
        }
        proof {
            assert(import_paths(after) =~= import_paths(before) + match vs[i as int].kind {
                SItemKind::Import(imp) => match import_string_arg(imp, "path"@) {
                    Some(p) => seq![p],
                    None => Seq::<Seq<char>>::empty(),
                },
                _ => Seq::<Seq<char>>::empty(),
            });
            assert forall|j: int| 0 <= j < paths@.len() implies #[trigger] paths@[j]@
                == import_paths(after)[j] by {
                if j < old_paths.len() {
                    assert(paths@[j] == old_paths[j]);
                }
            }
        }
        i = i + 1;
    }
    proof {
        assert(vs.take(n as int) =~= vs);
    }
    ModuleStats { counts, exported, import_paths: paths }
}

/// Adds the counts of one module to running totals: each kind's count and
/// the exported count add up (saturating at `usize::MAX`), and the module's
/// import paths follow those already listed.
pub fn add_stats(total: &mut ModuleStats, st: &ModuleStats)
    requires
        old(total).counts@.len() == 8,
        st.counts@.len() == 8,
    ensures
        final(total).counts@.len() == 8,
        forall|k: int|
            0 <= k < 8 ==> #[trigger] final(total).counts@[k] == (if old(total).counts@[k]
                + st.counts@[k] > usize::MAX {
                usize::MAX as int
            } else {
                old(total).counts@[k] + st.counts@[k]
            }),
        final(total).exported == (if old(total).exported + st.exported > usize::MAX {
            usize::MAX as int
        } else {
            old(total).exported + st.exported
        }),
        final(total).import_paths@.len() == old(total).import_paths@.len()
            + st.import_paths@.len(),
        forall|j: int|
            0 <= j < old(total).import_paths@.len() ==> #[trigger] final(total).import_paths@[j]@
                == old(total).import_paths@[j]@,
        forall|j: int|
            0 <= j < st.import_paths@.len() ==> #[trigger] final(total).import_paths@[old(
                total,
            ).import_paths@.len() + j]@ == st.import_paths@[j]@,
{
    let ghost c0 = total.counts@;
    let ghost p0 = total.import_paths@;
    let mut k: usize = 0;
    while k < 8
        invariant
            k <= 8,
            total.import_paths@ == p0,
            total.exported == old(total).exported,
            total.counts@.len() == 8,
            st.counts@.len() == 8,
            forall|j: int| k <= j < 8 ==> #[trigger] total.counts@[j] == c0[j],
            forall|j: int|
                0 <= j < k ==> #[trigger] total.counts@[j] == (if c0[j] + st.counts@[j]
                    > usize::MAX {
                    usize::MAX as int
                } else {
                    c0[j] + st.counts@[j]
                }),
        decreases 8 - k,
    {
        let sum = total.counts[k].saturating_add(st.counts[k]);
        total.counts.set(k, sum);
        k = k + 1;
    }
    total.exported = total.exported.saturating_add(st.exported);
    let ghost c1 = total.counts@;
    let ghost e1 = total.exported;
    let mut j: usize = 0;
    while j < st.import_paths.len()
        invariant
            j <= st.import_paths@.len(),
            total.counts@ == c1,
            total.exported == e1,
            total.import_paths@.len() == p0.len() + j,
            forall|i: int| 0 <= i < p0.len() ==> #[trigger] total.import_paths@[i]@ == p0[i]@,
            forall|i: int|
                0 <= i < j ==> #[trigger] total.import_paths@[p0.len() + i]@
                    == st.import_paths@[i]@,
        decreases st.import_paths@.len() - j,
    {
        let p = st.import_paths[j].clone();
        total.import_paths.push(p);
        j = j + 1;
    }
}

/// Where `p` stands among the paths counted so far.
fn find_path(r: &Vec<(String, usize)>, p: &String) -> (idx: Option<usize>)
    ensures
        match idx {
            Some(i) => i < r@.len() && r@[i as int].0@ == p@,
            None => forall|j: int| 0 <= j < r@.len() ==> r@[j].0@ != p@,
        },
{
    let mut i: usize = 0;
    while i < r.len()
        invariant
            i <= r@.len(),
            forall|j: int| 0 <= j < i ==> r@[j].0@ != p@,
        decreases r@.len() - i,
    {
        if same_text(r[i].0.as_str(), p.as_str()) {
            return Some(i);
        }
        i = i + 1;
    }
    None
}

/// How many of `ps` are `x`.
pub open spec fn occurrences(ps: Seq<Seq<char>>, x: Seq<char>) -> nat
    decreases ps.len(),
{
    if ps.len() == 0 {
        0
    } else {
        occurrences(ps.drop_last(), x) + if ps.last() == x {
            1nat
        } else {
            0nat
        }
    }
}

/// The texts of `v`.
pub open spec fn texts(v: Seq<String>) -> Seq<Seq<char>> {
    v.map_values(|x: String| x@)
}

/// Each distinct path of `paths` once, with how many times it occurs; a
/// text left out occurs nowhere in `paths`.
pub fn import_counts(paths: &Vec<String>) -> (r: Vec<(String, usize)>)
    ensures
        forall|i: int|
            0 <= i < r@.len() ==> #[trigger] r@[i].1 == occurrences(texts(paths@), r@[i].0@),
        forall|i: int, j: int| 0 <= i < j < r@.len() ==> r@[i].0@ != r@[j].0@,
        forall|x: Seq<char>|
            #![trigger occurrences(texts(paths@), x)]
            (forall|i: int| 0 <= i < r@.len() ==> r@[i].0@ != x) ==> occurrences(texts(paths@), x)
                == 0,
        forall|i: int| 0 <= i < r@.len() ==> r@[i].1 >= 1,
{
    let mut r: Vec<(String, usize)> = Vec::new();
    let mut k: usize = 0;
    while k < paths.len()
        invariant
            k <= paths@.len(),
            forall|i: int|
                0 <= i < r@.len() ==> #[trigger] r@[i].1 == occurrences(
                    texts(paths@.take(k as int)),
                    r@[i].0@,
                ),
            forall|i: int| 0 <= i < r@.len() ==> r@[i].1 >= 1,
            forall|i: int| 0 <= i < r@.len() ==> r@[i].1 <= k,
            forall|i: int, j: int| 0 <= i < j < r@.len() ==> r@[i].0@ != r@[j].0@,
            forall|m: int|
                #![trigger paths@[m]]
                0 <= m < k ==> exists|i: int| 0 <= i < r@.len() && #[trigger] r@[i].0@ == paths@[m]@,
            forall|x: Seq<char>|
                #![trigger occurrences(texts(paths@.take(k as int)), x)]
                (forall|i: int| 0 <= i < r@.len() ==> r@[i].0@ != x) ==> occurrences(
                    texts(paths@.take(k as int)),
                    x,
                ) == 0,
        decreases paths@.len() - k,
    {
        let ghost before = texts(paths@.take(k as int));
        let ghost after = texts(paths@.take(k + 1));
        let ghost p = paths@[k as int]@;
        proof {
            assert(after.drop_last() =~= before);
            assert(after.last() == p);
        }
        match find_path(&r, &paths[k]) {
            Some(i) => {
                let c = r[i].1;
                let name = r[i].0.clone();
                let ghost old_r = r@;
                r.set(i, (name, c + 1));
                proof {
                    assert forall|j: int| 0 <= j < r@.len() implies #[trigger] r@[j].1
                        == occurrences(after, r@[j].0@) by {
                        assert(r@[j].0@ == old_r[j].0@);
                        assert(occurrences(after, r@[j].0@) == occurrences(before, r@[j].0@) + if p
                            == r@[j].0@ {
                            1nat
                        } else {
                            0nat
                        });
                    }
                    assert forall|x: Seq<char>|
                        (forall|j: int| 0 <= j < r@.len() ==> r@[j].0@ != x) implies occurrences(
                        after,
                        x,
                    ) == 0 by {
                        assert(forall|j: int| 0 <= j < old_r.len() ==> old_r[j].0@ != x) by {
                            assert forall|j: int| 0 <= j < old_r.len() implies old_r[j].0@ != x by {
                                assert(r@[j].0@ == old_r[j].0@);
                            }
                        }
                        assert(r@[i as int].0@ == p);
                        assert(occurrences(before, x) == 0);
                        assert(occurrences(after, x) == occurrences(before, x) + if after.last() == x {
                            1nat
                        } else {
                            0nat
                        });
                    }
                    assert forall|m: int| #![trigger paths@[m]] 0 <= m < k + 1 implies exists|j: int|
                        0 <= j < r@.len() && #[trigger] r@[j].0@ == paths@[m]@ by {
                        if m == k {
                            assert(r@[i as int].0@ == paths@[m]@);
                        } else {
                            let j = choose|j: int| 0 <= j < old_r.len() && #[trigger] old_r[j].0@ == paths@[m]@;
                            assert(r@[j].0@ == old_r[j].0@);
                        }
                    }
                }
            },
            None => {
                let name = paths[k].clone();
                let ghost old_r = r@;
                r.push((name, 1));
                proof {
                    assert(occurrences(before, p) == 0);
                    assert forall|j: int| 0 <= j < r@.len() implies #[trigger] r@[j].1
                        == occurrences(after, r@[j].0@) by {
                        assert(occurrences(after, r@[j].0@) == occurrences(before, r@[j].0@) + if p
                            == r@[j].0@ {
                            1nat
                        } else {
                            0nat
                        });
                        if j < old_r.len() {
                            assert(r@[j] == old_r[j]);
                        }
                    }
                    assert forall|x: Seq<char>|
                        (forall|j: int| 0 <= j < r@.len() ==> r@[j].0@ != x) implies occurrences(
                        after,
                        x,
                    ) == 0 by {
                        assert(forall|j: int| 0 <= j < old_r.len() ==> old_r[j].0@ != x) by {
                            assert forall|j: int| 0 <= j < old_r.len() implies old_r[j].0@ != x by {
                                assert(r@[j] == old_r[j]);
                            }
                        }
                        assert(r@[old_r.len() as int].0@ == p);
                        assert(occurrences(before, x) == 0);
                        assert(occurrences(after, x) == occurrences(before, x) + if after.last() == x {
                            1nat
                        } else {
                            0nat
                        });
                    }
                    assert forall|m: int| #![trigger paths@[m]] 0 <= m < k + 1 implies exists|j: int|
                        0 <= j < r@.len() && #[trigger] r@[j].0@ == paths@[m]@ by {
                        if m == k {
                            assert(r@[old_r.len() as int].0@ == paths@[m]@);
                        } else {
                            let j = choose|j: int| 0 <= j < old_r.len() && #[trigger] old_r[j].0@ == paths@[m]@;
                            assert(r@[j] == old_r[j]);
                        }
                    }
                }
            },
        }
        k = k + 1;
    }
    assert(paths@.take(k as int) =~= paths@);
    r
}

/// `a` comes before `b` in the order of their characters' code points
/// (the order of their UTF-8 bytes).
pub open spec fn text_before(a: Seq<char>, b: Seq<char>) -> bool
    decreases a.len(),
{
    if b.len() == 0 {
        false
    } else if a.len() == 0 {
        true
    } else if a[0] != b[0] {
        (a[0] as u32) < (b[0] as u32)
    } else {
        text_before(a.drop_first(), b.drop_first())
    }
}

/// Whether an import path imported `a_count` times ranks before one
/// imported `b_count` times: more imports first, then by path.
pub fn ranks_before(a_path: &str, a_count: usize, b_path: &str, b_count: usize) -> (r: bool)
    ensures
        r == (a_count > b_count || (a_count == b_count && text_before(a_path@, b_path@))),
{
    if a_count != b_count {
        return a_count > b_count;
    }
    let a = chars_of(a_path);
    let b = chars_of(b_path);
    let mut i: usize = 0;
    proof {
        assert(a@.skip(0) =~= a@);
        assert(b@.skip(0) =~= b@);
    }
    while i < a.len() && i < b.len() && a[i] == b[i]
        invariant
            i <= a@.len(),
            i <= b@.len(),
            a@ == a_path@,
            b@ == b_path@,
            text_before(a@, b@) == text_before(a@.skip(i as int), b@.skip(i as int)),
        decreases a@.len() - i,
    {
        proof {
            assert(a@.skip(i as int).drop_first() =~= a@.skip(i + 1));
            assert(b@.skip(i as int).drop_first() =~= b@.skip(i + 1));
        }
        i = i + 1;
    }
    proof {
        assert(a@.skip(i as int).len() == a@.len() - i);
        if i < a@.len() {
            assert(a@.skip(i as int)[0] == a@[i as int]);
        }
        if i < b@.len() {
            assert(b@.skip(i as int)[0] == b@[i as int]);
        }
    }
    if i == b.len() {
        false
    } else if i == a.len() {
        true
    } else {
        (a[i] as u32) < (b[i] as u32)
    }
}

} // verus!
