//! Turning the entries read from the registry into the program list:
//! hiding system components, dropping duplicates, filling categories and
//! sorting by name.
use vstd::prelude::*;

use crate::categories::{enrich_categories, enriched};
use crate::programs::{
    copy_program, is_source_hive, opt_view, or_empty, read_program, reads_as, source_hive,
    source_hive_spec, source_path, source_path_spec, InstalledProgram, RawUninstallEntry,
    UninstallSource,
};
use crate::text::{chars_of, has_char, starts_with_spec, str_eq, to_lowercase, unicode_lowercase};

verus! {

// ---------------------------------------------------------------------------
// Lexicographic order
// ---------------------------------------------------------------------------

/// `a <= b` in the order of `String`: lexicographic by Unicode scalar value,
/// which is the byte order of UTF-8.
pub open spec fn lex_le(a: Seq<char>, b: Seq<char>) -> bool
    decreases a.len(),
{
    if a.len() == 0 {
        true
    } else if b.len() == 0 {
        false
    } else if a[0] != b[0] {
        a[0] < b[0]
    } else {
        lex_le(a.drop_first(), b.drop_first())
    }
}

pub proof fn lemma_lex_reflexive(a: Seq<char>)
    ensures
        lex_le(a, a),
    decreases a.len(),
{
    if a.len() > 0 {
        lemma_lex_reflexive(a.drop_first());
    }
}

pub proof fn lemma_lex_total(a: Seq<char>, b: Seq<char>)
    ensures
        lex_le(a, b) || lex_le(b, a),
    decreases a.len(),
{
    if a.len() > 0 && b.len() > 0 && a[0] == b[0] {
        lemma_lex_total(a.drop_first(), b.drop_first());
    }
}

pub proof fn lemma_lex_antisymmetric(a: Seq<char>, b: Seq<char>)
    requires
        lex_le(a, b),
        lex_le(b, a),
    ensures
        a == b,
    decreases a.len(),
{
    if a.len() == 0 {
        assert(b.len() == 0);
        assert(a =~= b);
    } else {
        lemma_lex_antisymmetric(a.drop_first(), b.drop_first());
        assert(a =~= seq![a[0]] + a.drop_first());
        assert(b =~= seq![b[0]] + b.drop_first());
    }
}

pub proof fn lemma_lex_transitive(a: Seq<char>, b: Seq<char>, c: Seq<char>)
    requires
        lex_le(a, b),
        lex_le(b, c),
    ensures
        lex_le(a, c),
    decreases a.len(),
{
    if a.len() > 0 && b.len() > 0 && c.len() > 0 && a[0] == b[0] && b[0] == c[0] {
        lemma_lex_transitive(a.drop_first(), b.drop_first(), c.drop_first());
    }
}

/// Compares two strings in `String` order.
pub fn lex_le_exec(a: &Vec<char>, b: &Vec<char>) -> (r: bool)
    ensures
        r == lex_le(a@, b@),
{
    let mut i: usize = 0;
    assert(a@.skip(0) == a@);
    assert(b@.skip(0) == b@);
    while i < a.len() && i < b.len() && a[i] == b[i]
        invariant
            i <= a@.len(),
            i <= b@.len(),
            lex_le(a@, b@) == lex_le(a@.skip(i as int), b@.skip(i as int)),
        decreases a@.len() - i,
    {
        assert(a@.skip(i as int).drop_first() == a@.skip(i + 1));
        assert(b@.skip(i as int).drop_first() == b@.skip(i + 1));
        i = i + 1;
    }
    if i == a.len() {
        true
    } else if i == b.len() {
        false
    } else {
        a[i] < b[i]
    }
}

// ---------------------------------------------------------------------------
// Stable sorting
// ---------------------------------------------------------------------------

/// `perm` is a permutation of `0..n`.
pub open spec fn is_permutation(perm: Seq<int>, n: nat) -> bool {
    &&& perm.len() == n
    &&& forall|a: int| 0 <= a < n ==> 0 <= #[trigger] perm[a] < n
    &&& forall|a: int, b: int| 0 <= a < n && 0 <= b < n && a != b ==> perm[a] != perm[b]
}

/// `res` is `ps` sorted by `keys` (`keys[i]` being the key of `ps[i]`), with
/// items of equal keys kept in their input order, by the rearrangement
/// `perm`.
pub open spec fn is_stable_sort_by(
    res: Seq<InstalledProgram>,
    ps: Seq<InstalledProgram>,
    keys: Seq<Seq<char>>,
    perm: Seq<int>,
) -> bool {
    &&& keys.len() == ps.len()
    &&& res.len() == ps.len()
    &&& is_permutation(perm, ps.len())
    &&& forall|a: int| 0 <= a < res.len() ==> res[a] == ps[#[trigger] perm[a]]
    &&& forall|a: int, b: int|
        0 <= a < b < res.len() ==> lex_le(keys[#[trigger] perm[a]], keys[#[trigger] perm[b]])
    &&& forall|a: int, b: int|
        0 <= a < b < res.len() && keys[#[trigger] perm[a]] == keys[#[trigger] perm[b]] ==> perm[a]
            < perm[b]
}

pub open spec fn string_views(v: Seq<String>) -> Seq<Seq<char>> {
    v.map_values(|s: String| s@)
}

/// Sorts `programs` stably by `keys` (`slice::sort_by` on the key strings).
pub fn sort_by_keys(programs: &Vec<InstalledProgram>, keys: &Vec<String>) -> (r: Vec<
    InstalledProgram,
>)
    requires
        keys@.len() == programs@.len(),
    ensures
        exists|perm: Seq<int>| is_stable_sort_by(r@, programs@, string_views(keys@), perm),
{
    let ghost ps = programs@;
    let ghost ks = string_views(keys@);
    let mut res: Vec<InstalledProgram> = Vec::new();
    let mut res_keys: Vec<Vec<char>> = Vec::new();
    let ghost mut perm: Seq<int> = Seq::empty();
    let mut i: usize = 0;
    while i < programs.len()
        invariant
            i <= ps.len(),
            ps == programs@,
            ks == string_views(keys@),
            ks.len() == ps.len(),
            res@.len() == i,
            res_keys@.len() == i,
            perm.len() == i,
            forall|a: int| 0 <= a < i ==> 0 <= #[trigger] perm[a] < i,
            forall|a: int, b: int| 0 <= a < i && 0 <= b < i && a != b ==> perm[a] != perm[b],
            forall|a: int| 0 <= a < i ==> res@[a] == ps[#[trigger] perm[a]],
            forall|a: int| 0 <= a < i ==> (#[trigger] res_keys@[a])@ == ks[perm[a]],
            forall|a: int, b: int|
                0 <= a < b < i ==> lex_le(#[trigger] res_keys@[a]@, #[trigger] res_keys@[b]@),
            forall|a: int, b: int|
                0 <= a < b < i && #[trigger] res_keys@[a]@ == #[trigger] res_keys@[b]@
                    ==> perm[a] < perm[b],
        decreases ps.len() - i,
    {
        let k = chars_of(keys[i].as_str());
        assert(k@ == ks[i as int]);
        let mut j: usize = 0;
        while j < res_keys.len() && lex_le_exec(&res_keys[j], &k)
            invariant
                j <= res_keys@.len(),
                forall|a: int| 0 <= a < j ==> lex_le(#[trigger] res_keys@[a]@, k@),
            decreases res_keys@.len() - j,
        {
            j = j + 1;
        }
        proof {
            assert forall|a: int| j <= a < i implies !lex_le(#[trigger] res_keys@[a]@, k@) by {
                if lex_le(res_keys@[a]@, k@) {
                    if a > j {
                        lemma_lex_transitive(res_keys@[j as int]@, res_keys@[a]@, k@);
                    }
                }
            }
        }
        let ghost old_res = res@;
        let ghost old_keys = res_keys@;
        let ghost old_perm = perm;
        res.insert(j, copy_program(&programs[i]));
        res_keys.insert(j, k);
        proof {
            perm = old_perm.insert(j as int, i as int);
            lemma_lex_reflexive(k@);
            assert forall|a: int| 0 <= a < i + 1 implies res@[a] == ps[#[trigger] perm[a]] by {
                if a < j {
                    assert(res@[a] == old_res[a]);
                } else if a > j {
                    assert(res@[a] == old_res[a - 1]);
                }
            }
            assert forall|a: int| 0 <= a < i + 1 implies (#[trigger] res_keys@[a])@ == ks[perm[a]] by {
                if a < j {
                    assert(res_keys@[a] == old_keys[a]);
                } else if a > j {
                    assert(res_keys@[a] == old_keys[a - 1]);
                }
            }
            assert forall|a: int| 0 <= a < i + 1 implies 0 <= #[trigger] perm[a] < i + 1 by {
                if a < j {
                    assert(perm[a] == old_perm[a]);
                } else if a > j {
                    assert(perm[a] == old_perm[a - 1]);
                }
            }
            assert forall|a: int, b: int|
                0 <= a < i + 1 && 0 <= b < i + 1 && a != b implies perm[a] != perm[b] by {
                if a != j && b != j {
                    let a0 = if a < j { a } else { a - 1 };
                    let b0 = if b < j { b } else { b - 1 };
                    assert(perm[a] == old_perm[a0]);
                    assert(perm[b] == old_perm[b0]);
                } else if a == j {
                    let b0 = if b < j { b } else { b - 1 };
                    assert(perm[b] == old_perm[b0]);
                } else {
                    let a0 = if a < j { a } else { a - 1 };
                    assert(perm[a] == old_perm[a0]);
                }
            }
            assert forall|a: int, b: int| 0 <= a < b < i + 1 implies lex_le(
                #[trigger] res_keys@[a]@,
                #[trigger] res_keys@[b]@,
            ) by {
                let a0 = if a < j { a } else { a - 1 };
                let b0 = if b < j { b } else { b - 1 };
                if a == j {
                    assert(res_keys@[b] == old_keys[b0]);
                    lemma_lex_total(old_keys[b0]@, k@);
                } else if b == j {
                    assert(res_keys@[a] == old_keys[a0]);
                } else {
                    assert(res_keys@[a] == old_keys[a0]);
                    assert(res_keys@[b] == old_keys[b0]);
                }
            }
            assert forall|a: int, b: int|
                0 <= a < b < i + 1 && #[trigger] res_keys@[a]@ == #[trigger] res_keys@[b]@
                    implies perm[a] < perm[b] by {
                let a0 = if a < j { a } else { a - 1 };
                let b0 = if b < j { b } else { b - 1 };
                if a == j {
                    assert(res_keys@[b] == old_keys[b0]);
                } else if b == j {
                    assert(perm[a] == old_perm[a0]);
                } else {
                    assert(res_keys@[a] == old_keys[a0]);
                    assert(res_keys@[b] == old_keys[b0]);
                    assert(perm[a] == old_perm[a0]);
                    assert(perm[b] == old_perm[b0]);
                }
            }
        }
        i = i + 1;
    }
    proof {
        assert forall|a: int, b: int| 0 <= a < b < res@.len() implies lex_le(
            ks[#[trigger] perm[a]],
            ks[#[trigger] perm[b]],
        ) by {
            assert(res_keys@[a]@ == ks[perm[a]]);
            assert(res_keys@[b]@ == ks[perm[b]]);
        }
        assert forall|a: int, b: int|
            0 <= a < b < res@.len() && ks[#[trigger] perm[a]] == ks[#[trigger] perm[b]] implies perm[a]
                < perm[b] by {
            assert(res_keys@[a]@ == ks[perm[a]]);
            assert(res_keys@[b]@ == ks[perm[b]]);
        }
        assert(is_stable_sort_by(res@, ps, ks, perm));
    }
    res
}

// ---------------------------------------------------------------------------
// Hiding system components and duplicates
// ---------------------------------------------------------------------------

/// A program is listed unless it is a system component and those are hidden.
pub open spec fn listed(p: InstalledProgram, show_system: bool) -> bool {
    !p.system_component || show_system
}

/// `ps[i]` is listed and no listed program before it has the same key.
pub open spec fn first_with_key(
    ps: Seq<InstalledProgram>,
    keys: Seq<Seq<char>>,
    show_system: bool,
    i: int,
) -> bool {
    &&& listed(ps[i], show_system)
    &&& forall|j: int| 0 <= j < i && listed(ps[j], show_system) ==> keys[j] != keys[i]
}

/// The listed programs among the first `n` of `ps`, each key kept once (its
/// first occurrence), in their input order.
pub open spec fn dedupe_spec(
    ps: Seq<InstalledProgram>,
    keys: Seq<Seq<char>>,
    show_system: bool,
    n: int,
) -> Seq<InstalledProgram>
    decreases n,
{
    if n <= 0 {
        Seq::empty()
    } else {
        let prev = dedupe_spec(ps, keys, show_system, n - 1);
        if first_with_key(ps, keys, show_system, n - 1) {
            prev.push(ps[n - 1])
        } else {
            prev
        }
    }
}

/// Whether a listed program before `programs[i]` has the key of `programs[i]`.
fn has_earlier_key(programs: &Vec<InstalledProgram>, keys: &Vec<String>, show_system: bool, i: usize) -> (r: bool)
    requires
        keys@.len() == programs@.len(),
        i < programs@.len(),
    ensures
        r == !(forall|m: int|
            0 <= m < i && listed(programs@[m], show_system) ==> string_views(keys@)[m] != string_views(
                keys@,
            )[i as int]),
{
    let ghost ks = string_views(keys@);
    let mut j: usize = 0;
    while j < i
        invariant
            j <= i < programs@.len(),
            keys@.len() == programs@.len(),
            ks == string_views(keys@),
            forall|m: int| 0 <= m < j && listed(programs@[m], show_system) ==> ks[m] != ks[i as int],
        decreases i - j,
    {
        if (!programs[j].system_component || show_system) && str_eq(
            keys[j].as_str(),
            keys[i].as_str(),
        ) {
            assert(ks[j as int] == ks[i as int]);
            return true;
        }
        j = j + 1;
    }
    false
}

/// Keeps the listed programs, dropping any whose key (`keys[i]` for
/// `programs[i]`) an earlier listed program already has.
pub fn dedupe_programs(programs: &Vec<InstalledProgram>, keys: &Vec<String>, show_system: bool) -> (r:
    Vec<InstalledProgram>)
    requires
        keys@.len() == programs@.len(),
    ensures
        r@ == dedupe_spec(programs@, string_views(keys@), show_system, programs@.len() as int),
{
    let ghost ks = string_views(keys@);
    let mut res: Vec<InstalledProgram> = Vec::new();
    let mut i: usize = 0;
    while i < programs.len()
        invariant
            i <= programs@.len(),
            keys@.len() == programs@.len(),
            ks == string_views(keys@),
            res@ == dedupe_spec(programs@, ks, show_system, i as int),
        decreases programs@.len() - i,
    {
        let listed_here = !programs[i].system_component || show_system;
        if listed_here && !has_earlier_key(programs, keys, show_system, i) {
            res.push(copy_program(&programs[i]));
        }
        i = i + 1;
    }
    res
}

// ---------------------------------------------------------------------------
// The program list
// ---------------------------------------------------------------------------

/// The key under which two entries count as the same program: lowercase
/// display name, lowercase publisher and version, separated by `|`.
pub open spec fn dedupe_key(p: InstalledProgram) -> Seq<char> {
    unicode_lowercase(p.display_name@) + "|"@ + unicode_lowercase(or_empty(opt_view(p.publisher)))
        + "|"@ + or_empty(opt_view(p.display_version))
}

/// The key by which the list is sorted: the lowercase display name.
pub open spec fn sort_key(p: InstalledProgram) -> Seq<char> {
    unicode_lowercase(p.display_name@)
}

pub open spec fn dedupe_keys(ps: Seq<InstalledProgram>) -> Seq<Seq<char>> {
    ps.map_values(|p: InstalledProgram| dedupe_key(p))
}

pub open spec fn sort_keys(ps: Seq<InstalledProgram>) -> Seq<Seq<char>> {
    ps.map_values(|p: InstalledProgram| sort_key(p))
}

/// `r` is the program list made from the entries `candidates`: the listed,
/// deduplicated entries (see `dedupe_spec`), with missing categories filled
/// in, sorted stably by lowercase display name.
pub open spec fn is_program_list(
    r: Seq<InstalledProgram>,
    candidates: Seq<InstalledProgram>,
    show_system: bool,
) -> bool {
    exists|mid: Seq<InstalledProgram>, perm: Seq<int>|
        #![trigger is_stable_sort_by(r, mid, sort_keys(mid), perm)]
        {
            let d = dedupe_spec(
                candidates,
                dedupe_keys(candidates),
                show_system,
                candidates.len() as int,
            );
            &&& mid.len() == d.len()
            &&& forall|i: int| 0 <= i < d.len() ==> enriched(#[trigger] d[i], mid[i])
            &&& is_stable_sort_by(r, mid, sort_keys(mid), perm)
        }
}

fn dedupe_key_exec(p: &InstalledProgram) -> (r: String)
    ensures
        r@ == dedupe_key(*p),
{
    let mut k = to_lowercase(p.display_name.as_str());
    k.append("|");
    let pl = match &p.publisher {
        Some(s) => to_lowercase(s.as_str()),
        None => to_lowercase(""),
    };
    proof {
        reveal_strlit("");
        assert(""@ =~= Seq::<char>::empty());
    }
    k.append(pl.as_str());
    k.append("|");
    match &p.display_version {
        Some(v) => k.append(v.as_str()),
        None => {},
    }
    assert(k@ == dedupe_key(*p));
    k
}

/// Builds the program list from the entries read from the registry, in the
/// order they were read (see `is_program_list`).
pub fn collect_programs(candidates: Vec<InstalledProgram>, show_system: bool) -> (r: Vec<
    InstalledProgram,
>)
    ensures
        is_program_list(r@, candidates@, show_system),
{
    let mut keys: Vec<String> = Vec::new();
    let mut i: usize = 0;
    while i < candidates.len()
        invariant
            i <= candidates@.len(),
            string_views(keys@) == dedupe_keys(candidates@).take(i as int),
        decreases candidates@.len() - i,
    {
        let k = dedupe_key_exec(&candidates[i]);
        keys.push(k);
        assert(dedupe_keys(candidates@).take(i + 1) == dedupe_keys(candidates@).take(i as int).push(
            dedupe_key(candidates@[i as int]),
        ));
        i = i + 1;
    }
    assert(dedupe_keys(candidates@).take(candidates@.len() as int) == dedupe_keys(candidates@));
    let mut listed_programs = dedupe_programs(&candidates, &keys, show_system);
    let ghost d = listed_programs@;
    enrich_categories(listed_programs.as_mut_slice());
    let ghost mid = listed_programs@;
    let mut names: Vec<String> = Vec::new();
    let mut m: usize = 0;
    while m < listed_programs.len()
        invariant
            m <= listed_programs@.len(),
            mid == listed_programs@,
            string_views(names@) == sort_keys(mid).take(m as int),
        decreases listed_programs@.len() - m,
    {
        names.push(to_lowercase(listed_programs[m].display_name.as_str()));
        assert(sort_keys(mid).take(m + 1) == sort_keys(mid).take(m as int).push(
            sort_key(mid[m as int]),
        ));
        m = m + 1;
    }
    assert(sort_keys(mid).take(mid.len() as int) == sort_keys(mid));
    let r = sort_by_keys(&listed_programs, &names);
    proof {
        let perm = choose|perm: Seq<int>| is_stable_sort_by(r@, mid, sort_keys(mid), perm);
        assert(forall|i: int| 0 <= i < d.len() ==> enriched(#[trigger] d[i], mid[i]));
    }
    r
}

// ---------------------------------------------------------------------------
// What the program list guarantees
// ---------------------------------------------------------------------------

/// Where each entry of `dedupe_spec(ps, keys, show_system, n)` comes from:
/// strictly increasing positions of `ps`, each the first listed one of its key.
pub proof fn dedupe_origin(
    ps: Seq<InstalledProgram>,
    keys: Seq<Seq<char>>,
    show_system: bool,
    n: int,
) -> (idx: Seq<int>)
    requires
        0 <= n <= ps.len(),
        keys.len() == ps.len(),
    ensures
        idx.len() == dedupe_spec(ps, keys, show_system, n).len(),
        forall|x: int|
            0 <= x < idx.len() ==> 0 <= #[trigger] idx[x] < n && dedupe_spec(
                ps,
                keys,
                show_system,
                n,
            )[x] == ps[idx[x]] && first_with_key(ps, keys, show_system, idx[x]),
        forall|x: int, y: int| 0 <= x < y < idx.len() ==> #[trigger] idx[x] < #[trigger] idx[y],
    decreases n,
{
    if n <= 0 {
        Seq::empty()
    } else {
        let prev = dedupe_origin(ps, keys, show_system, n - 1);
        if first_with_key(ps, keys, show_system, n - 1) {
            let idx = prev.push(n - 1);
            assert forall|x: int| 0 <= x < idx.len() implies 0 <= #[trigger] idx[x] < n
                && dedupe_spec(ps, keys, show_system, n)[x] == ps[idx[x]] && first_with_key(
                ps,
                keys,
                show_system,
                idx[x],
            ) by {
                if x < prev.len() {
                    assert(idx[x] == prev[x]);
                }
            }
            assert forall|x: int, y: int| 0 <= x < y < idx.len() implies #[trigger] idx[x]
                < #[trigger] idx[y] by {
                if y < prev.len() {
                    assert(idx[x] == prev[x]);
                    assert(idx[y] == prev[y]);
                } else {
                    assert(idx[x] == prev[x]);
                }
            }
            idx
        } else {
            prev
        }
    }
}

/// Filling in categories changes nothing but categories.
proof fn lemma_enriched_keeps_fields(a: InstalledProgram, b: InstalledProgram)
    requires
        enriched(a, b),
    ensures
        b.display_name == a.display_name,
        b.publisher == a.publisher,
        b.display_version == a.display_version,
        b.system_component == a.system_component,
        b.id == a.id,
        b.hive == a.hive,
        b.category is Some,
{
}

/// Unpacks `is_program_list`: each entry of the list is an enriched entry of
/// the deduplicated candidates.
proof fn lemma_list_entries(r: Seq<InstalledProgram>, c: Seq<InstalledProgram>, show_system: bool) -> (res: (Seq<InstalledProgram>, Seq<int>, Seq<int>))
    requires
        is_program_list(r, c, show_system),
    ensures
        ({
            let (mid, perm, idx) = res;
            &&& is_stable_sort_by(r, mid, sort_keys(mid), perm)
            &&& idx.len() == mid.len()
            &&& forall|a: int|
                0 <= a < r.len() ==> {
                    let m = #[trigger] perm[a];
                    &&& 0 <= m < mid.len()
                    &&& r[a] == mid[m]
                    &&& enriched(c[idx[m]], mid[m])
                    &&& first_with_key(c, dedupe_keys(c), show_system, idx[m])
                    &&& 0 <= idx[m] < c.len()
                }
            &&& forall|x: int, y: int| 0 <= x < y < idx.len() ==> #[trigger] idx[x] < #[trigger] idx[y]
        }),
{
    let (mid, perm) = choose|mid: Seq<InstalledProgram>, perm: Seq<int>|
        #![trigger is_stable_sort_by(r, mid, sort_keys(mid), perm)]
        {
            let d = dedupe_spec(c, dedupe_keys(c), show_system, c.len() as int);
            &&& mid.len() == d.len()
            &&& forall|i: int| 0 <= i < d.len() ==> enriched(#[trigger] d[i], mid[i])
            &&& is_stable_sort_by(r, mid, sort_keys(mid), perm)
        };
    let d = dedupe_spec(c, dedupe_keys(c), show_system, c.len() as int);
    let idx = dedupe_origin(c, dedupe_keys(c), show_system, c.len() as int);
    assert forall|a: int| 0 <= a < r.len() implies {
        let m = #[trigger] perm[a];
        &&& 0 <= m < mid.len()
        &&& r[a] == mid[m]
        &&& enriched(c[idx[m]], mid[m])
        &&& first_with_key(c, dedupe_keys(c), show_system, idx[m])
        &&& 0 <= idx[m] < c.len()
    } by {
        let m = perm[a];
        assert(d[m] == c[idx[m]]);
        assert(enriched(d[m], mid[m]));
    }
    (mid, perm, idx)
}

/// With system components hidden, none is listed.
pub proof fn law_list_hides_system_components(r: Seq<InstalledProgram>, c: Seq<InstalledProgram>)
    requires
        is_program_list(r, c, false),
    ensures
        forall|i: int| 0 <= i < r.len() ==> !(#[trigger] r[i]).system_component,
{
    let (mid, perm, idx) = lemma_list_entries(r, c, false);
    assert forall|i: int| 0 <= i < r.len() implies !(#[trigger] r[i]).system_component by {
        let m = perm[i];
        lemma_enriched_keeps_fields(c[idx[m]], mid[m]);
    }
}

/// No two listed programs share a name, publisher and version (compared as
/// in `dedupe_key`).
pub proof fn law_list_has_no_duplicates(
    r: Seq<InstalledProgram>,
    c: Seq<InstalledProgram>,
    show_system: bool,
)
    requires
        is_program_list(r, c, show_system),
    ensures
        forall|a: int, b: int|
            0 <= a < r.len() && 0 <= b < r.len() && a != b ==> dedupe_key(#[trigger] r[a])
                != dedupe_key(#[trigger] r[b]),
{
    let (mid, perm, idx) = lemma_list_entries(r, c, show_system);
    let keys = dedupe_keys(c);
    assert forall|a: int, b: int|
        0 <= a < r.len() && 0 <= b < r.len() && a != b implies dedupe_key(#[trigger] r[a])
            != dedupe_key(#[trigger] r[b]) by {
        let ma = perm[a];
        let mb = perm[b];
        assert(ma != mb);
        lemma_enriched_keeps_fields(c[idx[ma]], mid[ma]);
        lemma_enriched_keeps_fields(c[idx[mb]], mid[mb]);
        assert(dedupe_key(r[a]) == keys[idx[ma]]);
        assert(dedupe_key(r[b]) == keys[idx[mb]]);
        if ma < mb {
            assert(idx[ma] < idx[mb]);
            assert(first_with_key(c, keys, show_system, idx[mb]));
        } else {
            assert(idx[mb] < idx[ma]);
            assert(first_with_key(c, keys, show_system, idx[ma]));
        }
    }
}

/// The list is sorted by lowercase display name.
pub proof fn law_list_is_sorted(r: Seq<InstalledProgram>, c: Seq<InstalledProgram>, show_system: bool)
    requires
        is_program_list(r, c, show_system),
    ensures
        forall|a: int, b: int|
            0 <= a < b < r.len() ==> lex_le(sort_key(#[trigger] r[a]), sort_key(#[trigger] r[b])),
{
    let (mid, perm, idx) = lemma_list_entries(r, c, show_system);
    assert forall|a: int, b: int| 0 <= a < b < r.len() implies lex_le(
        sort_key(#[trigger] r[a]),
        sort_key(#[trigger] r[b]),
    ) by {
        assert(lex_le(sort_keys(mid)[perm[a]], sort_keys(mid)[perm[b]]));
    }
}

/// Every listed program has a category.
pub proof fn law_list_entries_have_categories(
    r: Seq<InstalledProgram>,
    c: Seq<InstalledProgram>,
    show_system: bool,
)
    requires
        is_program_list(r, c, show_system),
    ensures
        forall|i: int| 0 <= i < r.len() ==> (#[trigger] r[i]).category is Some,
{
    let (mid, perm, idx) = lemma_list_entries(r, c, show_system);
    assert forall|i: int| 0 <= i < r.len() implies (#[trigger] r[i]).category is Some by {
        let m = perm[i];
        lemma_enriched_keeps_fields(c[idx[m]], mid[m]);
    }
}

// ---------------------------------------------------------------------------
// Reading the Uninstall sources
// ---------------------------------------------------------------------------

/// The values of one subkey of the Uninstall key of `source`.
#[derive(Debug)]
pub struct SubkeyValues {
    pub source: UninstallSource,
    pub subkey_name: String,
    pub values: RawUninstallEntry,
}

/// The programs among `outs`, in order.
pub open spec fn present_programs(outs: Seq<Option<InstalledProgram>>) -> Seq<InstalledProgram>
    decreases outs.len(),
{
    if outs.len() == 0 {
        Seq::empty()
    } else {
        let prev = present_programs(outs.drop_last());
        match outs.last() {
            Some(p) => prev.push(p),
            None => prev,
        }
    }
}

/// `candidates` are the programs that `read_program` reads from the subkeys
/// `read`, in order.
pub open spec fn read_from_sources(read: Seq<SubkeyValues>, candidates: Seq<InstalledProgram>) -> bool {
    exists|outs: Seq<Option<InstalledProgram>>|
        #![trigger present_programs(outs)]
        {
            &&& outs.len() == read.len()
            &&& forall|i: int|
                0 <= i < read.len() ==> reads_as(
                    source_hive_spec(read[i].source),
                    source_path_spec(read[i].source),
                    read[i].subkey_name@,
                    read[i].values,
                    #[trigger] outs[i],
                )
            &&& candidates == present_programs(outs)
        }
}

/// `p` comes from one of the Uninstall sources: its hive is a source's, and
/// its id begins with the hive and a `\`.
pub open spec fn from_a_source(p: InstalledProgram) -> bool {
    is_source_hive(p.hive@) && starts_with_spec(p.id@, p.hive@ + "\\"@)
}

proof fn lemma_id_starts_with_hive(hive: Seq<char>, path: Seq<char>, subkey: Seq<char>)
    ensures
        starts_with_spec(hive + "\\"@ + path + "\\"@ + subkey, hive + "\\"@),
{
    let pre = hive + "\\"@;
    let id = hive + "\\"@ + path + "\\"@ + subkey;
    assert(id.subrange(0, pre.len() as int) =~= pre);
}

/// Every entry of a list built from programs of the Uninstall sources comes
/// from one of them.
proof fn lemma_list_keeps_sources(r: Seq<InstalledProgram>, c: Seq<InstalledProgram>, show_system: bool)
    requires
        is_program_list(r, c, show_system),
        forall|i: int| 0 <= i < c.len() ==> from_a_source(#[trigger] c[i]),
    ensures
        forall|i: int| 0 <= i < r.len() ==> from_a_source(#[trigger] r[i]),
{
    let (mid, perm, idx) = lemma_list_entries(r, c, show_system);
    assert forall|i: int| 0 <= i < r.len() implies from_a_source(#[trigger] r[i]) by {
        let m = perm[i];
        lemma_enriched_keeps_fields(c[idx[m]], mid[m]);
        assert(from_a_source(c[idx[m]]));
    }
}

/// Builds the program list from the subkeys read from the Uninstall sources,
/// in the order they were read: each is read with `read_program` under its
/// source's hive name and key path, then the list is made with
/// `collect_programs`.
pub fn list_programs(read: Vec<SubkeyValues>, show_system: bool) -> (r: Vec<InstalledProgram>)
    ensures
        exists|candidates: Seq<InstalledProgram>|
            #![trigger is_program_list(r@, candidates, show_system)]
            read_from_sources(read@, candidates) && is_program_list(r@, candidates, show_system),
        forall|i: int| 0 <= i < r@.len() ==> from_a_source(#[trigger] r@[i]),
{
    let ghost all = read@;
    let mut read = read;
    let mut candidates: Vec<InstalledProgram> = Vec::new();
    let ghost mut outs: Seq<Option<InstalledProgram>> = Seq::empty();
    while read.len() > 0
        invariant
            outs.len() + read@.len() == all.len(),
            read@ == all.skip(outs.len() as int),
            forall|i: int|
                0 <= i < outs.len() ==> reads_as(
                    source_hive_spec(all[i].source),
                    source_path_spec(all[i].source),
                    all[i].subkey_name@,
                    all[i].values,
                    #[trigger] outs[i],
                ),
            candidates@ == present_programs(outs),
            forall|i: int| 0 <= i < candidates@.len() ==> from_a_source(#[trigger] candidates@[i]),
        decreases read@.len(),
    {
        let ghost before = outs;
        let entry = read.remove(0);
        assert(entry == all[before.len() as int]);
        assert(read@ == all.skip(before.len() + 1 as int));
        let hive = source_hive(entry.source);
        let path = source_path(entry.source);
        let out = read_program(hive.as_str(), path.as_str(), entry.subkey_name.as_str(), entry.values);
        let ghost o = out;
        proof {
            outs = before.push(o);
            assert(outs.drop_last() == before);
            if let Some(p) = o {
                lemma_id_starts_with_hive(hive@, path@, entry.subkey_name@);
            }
        }
        match out {
            Some(p) => candidates.push(p),
            None => {},
        }
    }
    assert(outs.len() == all.len());
    let r = collect_programs(candidates, show_system);
    proof {
        lemma_list_keeps_sources(r@, candidates@, show_system);
        assert(read_from_sources(all, candidates@));
    }
    r
}

// ---------------------------------------------------------------------------
// What the duplicate key tells apart
// ---------------------------------------------------------------------------

proof fn lemma_split_at_bar(x1: Seq<char>, r1: Seq<char>, x2: Seq<char>, r2: Seq<char>)
    requires
        !has_char(x1, '|'),
        !has_char(x2, '|'),
        x1 + seq!['|'] + r1 == x2 + seq!['|'] + r2,
    ensures
        x1 == x2,
        r1 == r2,
{
    let s = x1 + seq!['|'] + r1;
    let t = x2 + seq!['|'] + r2;
    if x1.len() < x2.len() {
        assert(s[x1.len() as int] == '|');
        assert(t[x1.len() as int] == x2[x1.len() as int]);
    } else if x2.len() < x1.len() {
        assert(t[x2.len() as int] == '|');
        assert(s[x2.len() as int] == x1[x2.len() as int]);
    }
    assert(x1.len() == x2.len());
    assert forall|i: int| 0 <= i < x1.len() implies x1[i] == x2[i] by {
        assert(s[i] == x1[i]);
        assert(t[i] == x2[i]);
    }
    assert(x1 =~= x2);
    assert(r1 =~= s.skip(x1.len() + 1 as int));
    assert(r2 =~= t.skip(x2.len() + 1 as int));
}

/// Entries that differ in version are never duplicates of each other: where
/// neither lowercase display name nor lowercase publisher holds a `|`, two
/// programs have the same duplicate key exactly when their lowercase names,
/// their lowercase publishers and their versions (none counting as empty)
/// are equal.
pub proof fn law_duplicate_key_separates_name_publisher_and_version(
    a: InstalledProgram,
    b: InstalledProgram,
)
    requires
        !has_char(unicode_lowercase(a.display_name@), '|'),
        !has_char(unicode_lowercase(b.display_name@), '|'),
        !has_char(unicode_lowercase(or_empty(opt_view(a.publisher))), '|'),
        !has_char(unicode_lowercase(or_empty(opt_view(b.publisher))), '|'),
    ensures
        dedupe_key(a) == dedupe_key(b) <==> {
            &&& unicode_lowercase(a.display_name@) == unicode_lowercase(b.display_name@)
            &&& unicode_lowercase(or_empty(opt_view(a.publisher))) == unicode_lowercase(
                or_empty(opt_view(b.publisher)),
            )
            &&& or_empty(opt_view(a.display_version)) == or_empty(opt_view(b.display_version))
        },
{
    let na = unicode_lowercase(a.display_name@);
    let nb = unicode_lowercase(b.display_name@);
    let pa = unicode_lowercase(or_empty(opt_view(a.publisher)));
    let pb = unicode_lowercase(or_empty(opt_view(b.publisher)));
    let va = or_empty(opt_view(a.display_version));
    let vb = or_empty(opt_view(b.display_version));
    reveal_strlit("|");
    assert("|"@ =~= seq!['|']);
    assert(dedupe_key(a) =~= na + seq!['|'] + (pa + seq!['|'] + va));
    assert(dedupe_key(b) =~= nb + seq!['|'] + (pb + seq!['|'] + vb));
    if dedupe_key(a) == dedupe_key(b) {
        lemma_split_at_bar(na, pa + seq!['|'] + va, nb, pb + seq!['|'] + vb);
        lemma_split_at_bar(pa, va, pb, vb);
    }
}

} // verus!
