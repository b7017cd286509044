//! Layering mods over the base game data: deterministic load order, schema
//! compatibility, and merging entries by identifier where the entry loaded
//! last wins.

use vstd::prelude::*;
use vstd::string::StrSliceExecFns;
use vstd::multiset::Multiset;
use crate::data::{GameData, HasId, TechPrereq, has_id, is_first_with_id};
use crate::ship_design::first_index;
use crate::text::same_text;

verus! {

/// Schema version assumed when none is declared.
pub const DEFAULT_DATA_SCHEMA_VERSION: u32 = 1u32;

/// Metadata of one mod folder.
#[derive(Debug, Clone, PartialEq, Eq)]
pub struct ModInfo {
    /// Name of the mod's folder.
    pub folder: String,
    /// Higher priorities load later.
    pub priority: i32,
    /// Data schema the mod was written for.
    pub data_schema_version: u32,
}

/// Mods written for a newer schema than the runtime's are rejected.
pub fn schema_supported(mod_version: u32, runtime_version: u32) -> (r: bool)
    ensures
        r == (mod_version <= runtime_version),
{
    mod_version <= runtime_version
}

/// `a` comes before `b` in lexicographic (code point) order.
pub open spec fn text_less(a: Seq<char>, b: Seq<char>) -> bool
    decreases a.len(),
{
    if a.len() == 0 {
        b.len() > 0
    } else if b.len() == 0 {
        false
    } else if (a[0] as u32) < (b[0] as u32) {
        true
    } else if a[0] == b[0] {
        text_less(a.drop_first(), b.drop_first())
    } else {
        false
    }
}

/// Lexicographic order is transitive.
pub proof fn lemma_text_less_transitive(a: Seq<char>, b: Seq<char>, c: Seq<char>)
    requires
        text_less(a, b),
        text_less(b, c),
    ensures
        text_less(a, c),
    decreases a.len(),
{
    if a.len() > 0 && b.len() > 0 && c.len() > 0 && a[0] == b[0] && b[0] == c[0] {
        lemma_text_less_transitive(a.drop_first(), b.drop_first(), c.drop_first());
    }
}

/// No text comes before itself.
pub proof fn lemma_text_less_irreflexive(a: Seq<char>)
    ensures
        !text_less(a, a),
    decreases a.len(),
{
    if a.len() > 0 {
        lemma_text_less_irreflexive(a.drop_first());
    }
}

/// Mod `a` loads strictly before mod `b`: lower priority first, then by folder name.
pub open spec fn loads_before(a: ModInfo, b: ModInfo) -> bool {
    a.priority < b.priority || (a.priority == b.priority && text_less(a.folder@, b.folder@))
}

/// Loading before is transitive.
pub proof fn lemma_loads_before_transitive(a: ModInfo, b: ModInfo, c: ModInfo)
    requires
        loads_before(a, b),
        loads_before(b, c),
    ensures
        loads_before(a, c),
{
    if a.priority == b.priority && b.priority == c.priority {
        lemma_text_less_transitive(a.folder@, b.folder@, c.folder@);
    }
}

/// Mods in an order where none loads before an earlier one.
pub open spec fn in_load_order(mods: Seq<ModInfo>) -> bool {
    forall|i: int, j: int| 0 <= i < j < mods.len() ==> !loads_before(#[trigger] mods[j], #[trigger] mods[i])
}

/// Whether `a` comes before `b` in lexicographic order.
fn text_before(a: &str, b: &str) -> (r: bool)
    ensures
        r == text_less(a@, b@),
{
    let la = a.unicode_len();
    let lb = b.unicode_len();
    let mut i: usize = 0;
    proof {
        assert(a@.subrange(0, la as int) =~= a@);
        assert(b@.subrange(0, lb as int) =~= b@);
    }
    while i < la && i < lb
        invariant
            la == a@.len(),
            lb == b@.len(),
            i <= la,
            i <= lb,
            a@.subrange(0, i as int) == b@.subrange(0, i as int),
            text_less(a@, b@) == text_less(a@.subrange(i as int, la as int), b@.subrange(i as int, lb as int)),
        decreases la - i,
    {
        let ca = a.get_char(i);
        let cb = b.get_char(i);
        let ghost ra = a@.subrange(i as int, la as int);
        let ghost rb = b@.subrange(i as int, lb as int);
        proof {
            assert(ra[0] == ca);
            assert(rb[0] == cb);
        }
        if (ca as u32) < (cb as u32) {
            return true;
        }
        if ca != cb {
            return false;
        }
        proof {
            assert(ra.drop_first() =~= a@.subrange(i + 1, la as int));
            assert(rb.drop_first() =~= b@.subrange(i + 1, lb as int));
            assert(a@.subrange(0, i + 1) =~= a@.subrange(0, i as int).push(ca));
            assert(b@.subrange(0, i + 1) =~= b@.subrange(0, i as int).push(cb));
        }
        i = i + 1;
    }
    i < lb
}

/// Whether mod `a` loads strictly before mod `b`.
fn mod_before(a: &ModInfo, b: &ModInfo) -> (r: bool)
    ensures
        r == loads_before(*a, *b),
{
    a.priority < b.priority || (a.priority == b.priority && text_before(
        a.folder.as_str(),
        b.folder.as_str(),
    ))
}

/// Put mods into load order: by priority (higher values load later), then by
/// folder name. The result holds the same mods.
pub fn load_order(mods: Vec<ModInfo>) -> (r: Vec<ModInfo>)
    ensures
        r@.to_multiset() == mods@.to_multiset(),
        in_load_order(r@),
{
    broadcast use vstd::seq_lib::group_to_multiset_ensures;

    let mut rest = mods;
    let mut out: Vec<ModInfo> = Vec::new();
    while rest.len() > 0
        invariant
            out@.to_multiset().add(rest@.to_multiset()) == mods@.to_multiset(),
            in_load_order(out@),
            forall|i: int, j: int|
                0 <= i < out.len() && 0 <= j < rest.len() ==> !loads_before(#[trigger] rest@[j], #[trigger] out@[i]),
        decreases rest.len(),
    {
        let mut best: usize = 0;
        let mut k: usize = 1;
        proof {
            lemma_text_less_irreflexive(rest@[0].folder@);
        }
        while k < rest.len()
            invariant
                0 < rest.len(),
                best < rest.len(),
                1 <= k <= rest.len(),
                forall|j: int| 0 <= j < k ==> !loads_before(#[trigger] rest@[j], rest@[best as int]),
            decreases rest.len() - k,
        {
            if mod_before(&rest[k], &rest[best]) {
                proof {
                    assert forall|j: int| 0 <= j < k implies !loads_before(#[trigger] rest@[j], rest@[k as int]) by {
                        if loads_before(rest@[j], rest@[k as int]) {
                            lemma_loads_before_transitive(rest@[j], rest@[k as int], rest@[best as int]);
                        }
                    }
                }
                proof {
                    lemma_text_less_irreflexive(rest@[k as int].folder@);
                }
                best = k;
            }
            k = k + 1;
        }
        let ghost old_rest = rest@;
        let ghost old_out = out@;
        let m = rest.remove(best);
        out.push(m);
        proof {
            assert(old_rest.remove(best as int) == rest@);
            assert(m == old_rest[best as int]);
            assert(out@ == old_out.push(m));
            vstd::seq_lib::to_multiset_remove(old_rest, best as int);
            old_rest.to_multiset_ensures();
            assert(old_rest.contains(m));
            assert(old_rest.to_multiset().count(m) > 0);
            vstd::seq_lib::to_multiset_build(old_out, m);
            assert(out@.to_multiset() == old_out.to_multiset().insert(m));
            assert(out@.to_multiset().add(rest@.to_multiset()) =~= old_out.to_multiset().add(
                old_rest.to_multiset(),
            ));
            assert forall|i: int, j: int| 0 <= i < j < out.len() implies !loads_before(
                #[trigger] out@[j],
                #[trigger] out@[i],
            ) by {
                if j == out.len() - 1 {
                    assert(out@[j] == old_rest[best as int]);
                    assert(out@[i] == old_out[i]);
                } else {
                    assert(out@[i] == old_out[i]);
                    assert(out@[j] == old_out[j]);
                }
            }
            assert forall|i: int, j: int|
                0 <= i < out.len() && 0 <= j < rest.len() implies !loads_before(#[trigger] rest@[j], #[trigger] out@[i]) by {
                let jj = if j < best {
                    j
                } else {
                    j + 1
                };
                assert(rest@[j] == old_rest[jj]);
                if i == out.len() - 1 {
                    assert(out@[i] == old_rest[best as int]);
                } else {
                    assert(out@[i] == old_out[i]);
                }
            }
        }
    }
    proof {
        assert(rest@.to_multiset() =~= Multiset::empty());
        assert(out@.to_multiset().add(Multiset::empty()) =~= out@.to_multiset());
    }
    out
}

/// One entry merged into `entries`: it replaces the first entry with the same
/// identifier, or is appended when there is none.
pub open spec fn merge_one<T: HasId>(entries: Seq<T>, item: T) -> Seq<T> {
    if has_id(entries, item.spec_id()) {
        entries.update(first_index(entries, item.spec_id()), item)
    } else {
        entries.push(item)
    }
}

/// `additions` merged into `entries` one after the other.
pub open spec fn merged<T: HasId>(entries: Seq<T>, additions: Seq<T>) -> Seq<T>
    decreases additions.len(),
{
    if additions.len() == 0 {
        entries
    } else {
        merge_one(merged(entries, additions.drop_last()), additions.last())
    }
}

/// Position of the last addition with identifier `id`.
pub open spec fn is_last_with_id<T: HasId>(items: Seq<T>, id: Seq<char>, k: int) -> bool {
    &&& 0 <= k < items.len()
    &&& items[k].spec_id() == id
    &&& forall|j: int| k < j < items.len() ==> #[trigger] items[j].spec_id() != id
}

/// Facts about merging one entry.
proof fn lemma_merge_one<T: HasId>(entries: Seq<T>, item: T, id: Seq<char>)
    ensures
        has_id(merge_one(entries, item), item.spec_id()),
        merge_one(entries, item)[first_index(merge_one(entries, item), item.spec_id())] == item,
        id != item.spec_id() ==> (has_id(merge_one(entries, item), id) == has_id(entries, id)),
        id != item.spec_id() && has_id(entries, id) ==> first_index(merge_one(entries, item), id)
            == first_index(entries, id) && merge_one(entries, item)[first_index(entries, id)]
            == entries[first_index(entries, id)],
{
    let m = merge_one(entries, item);
    let iid = item.spec_id();
    if has_id(entries, iid) {
        let k = choose|k: int| 0 <= k < entries.len() && #[trigger] entries[k].spec_id() == iid;
        lemma_first_exists(entries, iid, k);
        let f = first_index(entries, iid);
        assert(is_first_with_id(entries, iid, f));
        assert(is_first_with_id(m, iid, f)) by {
            assert forall|j: int| 0 <= j < f implies #[trigger] m[j].spec_id() != iid by {
                assert(m[j] == entries[j]);
            }
        }
        crate::data::lemma_first_with_id_unique(m, iid, f);
    } else {
        let f = entries.len() as int;
        assert(is_first_with_id(m, iid, f)) by {
            assert forall|j: int| 0 <= j < f implies #[trigger] m[j].spec_id() != iid by {
                assert(m[j] == entries[j]);
            }
        }
        crate::data::lemma_first_with_id_unique(m, iid, f);
    }
    if id != iid {
        if has_id(entries, id) {
            let k = choose|k: int| 0 <= k < entries.len() && #[trigger] entries[k].spec_id() == id;
            lemma_first_exists(entries, id, k);
            let f = first_index(entries, id);
            assert(is_first_with_id(entries, id, f));
            assert(m[f].spec_id() == id);
            assert(is_first_with_id(m, id, f)) by {
                assert forall|j: int| 0 <= j < f implies #[trigger] m[j].spec_id() != id by {
                    if j < entries.len() {
                        assert(m[j].spec_id() == entries[j].spec_id() || m[j] == item);
                    }
                }
            }
            crate::data::lemma_first_with_id_unique(m, id, f);
        } else {
            assert forall|j: int| 0 <= j < m.len() implies #[trigger] m[j].spec_id() != id by {
                if j < entries.len() && m[j] != item {
                    assert(m[j] == entries[j]);
                }
            }
        }
    }
}

/// An identifier that occurs has a first occurrence.
pub proof fn lemma_first_exists<T: HasId>(items: Seq<T>, id: Seq<char>, k: int)
    requires
        0 <= k < items.len(),
        items[k].spec_id() == id,
    ensures
        is_first_with_id(items, id, first_index(items, id)),
    decreases k,
{
    if exists|j: int| 0 <= j < k && #[trigger] items[j].spec_id() == id {
        let j = choose|j: int| 0 <= j < k && #[trigger] items[j].spec_id() == id;
        lemma_first_exists(items, id, j);
    } else {
        assert(is_first_with_id(items, id, k));
    }
}

/// The last loaded entry wins: after merging, every identifier of the
/// additions is present, and the entry found under it is the last addition
/// that has it.
pub proof fn lemma_last_loaded_wins<T: HasId>(entries: Seq<T>, additions: Seq<T>, id: Seq<char>, k: int)
    requires
        is_last_with_id(additions, id, k),
    ensures
        has_id(merged(entries, additions), id),
        merged(entries, additions)[first_index(merged(entries, additions), id)] == additions[k],
    decreases additions.len(),
{
    let prev = merged(entries, additions.drop_last());
    let last = additions.last();
    lemma_merge_one(prev, last, id);
    if k == additions.len() - 1 {
    } else {
        assert(last.spec_id() != id);
        let rest = additions.drop_last();
        assert(is_last_with_id(rest, id, k)) by {
            assert forall|j: int| k < j < rest.len() implies #[trigger] rest[j].spec_id() != id by {
                assert(rest[j] == additions[j]);
            }
        }
        lemma_last_loaded_wins(entries, rest, id, k);
    }
}

/// Identifiers that no addition has keep their entry.
pub proof fn lemma_untouched_entries_kept<T: HasId>(entries: Seq<T>, additions: Seq<T>, id: Seq<char>)
    requires
        has_id(entries, id),
        !has_id(additions, id),
    ensures
        has_id(merged(entries, additions), id),
        first_index(merged(entries, additions), id) == first_index(entries, id),
        merged(entries, additions)[first_index(entries, id)] == entries[first_index(entries, id)],
    decreases additions.len(),
{
    if additions.len() > 0 {
        let rest = additions.drop_last();
        assert(!has_id(rest, id)) by {
            if has_id(rest, id) {
                let j = choose|j: int| 0 <= j < rest.len() && #[trigger] rest[j].spec_id() == id;
                assert(additions[j] == rest[j]);
            }
        }
        lemma_untouched_entries_kept(entries, rest, id);
        assert(additions.last() == additions[additions.len() - 1]);
        lemma_merge_one(merged(entries, rest), additions.last(), id);
    }
}

/// Merge `additions` into `entries`, each replacing the first entry with its
/// identifier or being appended.
pub fn merge_by_id<T: HasId>(entries: &mut Vec<T>, additions: Vec<T>)
    ensures
        final(entries)@ == merged(old(entries)@, additions@),
{
    let ghost start = entries@;
    let ghost all = additions@;
    let mut rest = additions;
    let total = rest.len();
    let mut done: usize = 0;
    while done < total
        invariant
            all.len() == total,
            done <= total,
            done + rest@.len() == all.len(),
            rest@ == all.subrange(done as int, all.len() as int),
            entries@ == merged(start, all.subrange(0, done as int)),
        decreases total - done,
    {
        let item = rest.remove(0);
        proof {
            assert(item == all[done as int]);
            assert(all.subrange(0, done + 1).drop_last() =~= all.subrange(0, done as int));
            assert(rest@ =~= all.subrange(done + 1, all.len() as int));
        }
        let ghost before = entries@;
        match position_by_id(entries, item.id()) {
            Some(k) => {
                proof {
                    assert(entries@[k as int].spec_id() == item.spec_id());
                }
                entries.set(k, item);
            },
            None => {
                entries.push(item);
            },
        }
        proof {
            assert(entries@ == merge_one(before, item));
        }
        done = done + 1;
    }
    proof {
        assert(all.subrange(0, done as int) =~= all);
    }
}

/// Position of the first entry with identifier `id`.
fn position_by_id<T: HasId>(items: &Vec<T>, id: &str) -> (r: Option<usize>)
    ensures
        r matches Some(i) ==> i == first_index(items@, id@) && is_first_with_id(items@, id@, i as int),
        r is None ==> !has_id(items@, id@),
{
    let r = crate::data::find_by_id(items.as_slice(), id);
    proof {
        if let Some(i) = r {
            crate::data::lemma_first_with_id_unique(items@, id@, i as int);
        }
    }
    r
}

/// The `(from, to)` pairs of prerequisites, in order.
pub open spec fn pair_keys(prereqs: Seq<TechPrereq>) -> Seq<(Seq<char>, Seq<char>)> {
    prereqs.map_values(|p: TechPrereq| (p.from@, p.to@))
}

/// A pair added to `keys` unless it is already there.
pub open spec fn add_pair(keys: Seq<(Seq<char>, Seq<char>)>, k: (Seq<char>, Seq<char>)) -> Seq<(Seq<char>, Seq<char>)> {
    if keys.contains(k) {
        keys
    } else {
        keys.push(k)
    }
}

/// The pairs of `additions` added to `keys` one after the other.
pub open spec fn pairs_merged(
    keys: Seq<(Seq<char>, Seq<char>)>,
    additions: Seq<(Seq<char>, Seq<char>)>,
) -> Seq<(Seq<char>, Seq<char>)>
    decreases additions.len(),
{
    if additions.len() == 0 {
        keys
    } else {
        add_pair(pairs_merged(keys, additions.drop_last()), additions.last())
    }
}

/// After merging, a pair is present exactly when the base data or one of the
/// additions has it.
pub proof fn lemma_merged_pairs_present(
    keys: Seq<(Seq<char>, Seq<char>)>,
    additions: Seq<(Seq<char>, Seq<char>)>,
    k: (Seq<char>, Seq<char>),
)
    ensures
        pairs_merged(keys, additions).contains(k) <==> (keys.contains(k) || additions.contains(k)),
    decreases additions.len(),
{
    if additions.len() > 0 {
        let rest = additions.drop_last();
        lemma_merged_pairs_present(keys, rest, k);
        let prev = pairs_merged(keys, rest);
        let last = additions.last();
        if prev.contains(k) {
            let i = choose|i: int| 0 <= i < prev.len() && prev[i] == k;
            assert(add_pair(prev, last)[i] == k);
        }
        if rest.contains(k) {
            let i = choose|i: int| 0 <= i < rest.len() && rest[i] == k;
            assert(additions[i] == k);
        }
        if additions.contains(k) && k != last {
            let i = choose|i: int| 0 <= i < additions.len() && additions[i] == k;
            assert(rest[i] == k);
        }
        if k == last {
            assert(additions[additions.len() - 1] == k);
            if !prev.contains(k) {
                assert(add_pair(prev, last)[prev.len() as int] == k);
            }
        }
        if add_pair(prev, last).contains(k) && k != last {
            let i = choose|i: int| 0 <= i < add_pair(prev, last).len() && add_pair(prev, last)[i] == k;
            assert(prev[i] == k);
        }
    }
}

/// Merging never lists a pair twice when the base data does not.
pub proof fn lemma_merged_pairs_distinct(
    keys: Seq<(Seq<char>, Seq<char>)>,
    additions: Seq<(Seq<char>, Seq<char>)>,
)
    requires
        keys.no_duplicates(),
    ensures
        pairs_merged(keys, additions).no_duplicates(),
    decreases additions.len(),
{
    if additions.len() > 0 {
        lemma_merged_pairs_distinct(keys, additions.drop_last());
        let prev = pairs_merged(keys, additions.drop_last());
        let last = additions.last();
        if !prev.contains(last) {
            let m = prev.push(last);
            assert forall|i: int, j: int| 0 <= i < m.len() && 0 <= j < m.len() && i != j implies m[i] != m[j] by {
                if i == prev.len() {
                    assert(m[j] == prev[j]);
                } else if j == prev.len() {
                    assert(m[i] == prev[i]);
                }
            }
        }
    }
}

/// Position of the prerequisite with the pair of `p`, if any.
fn position_by_pair(prereqs: &Vec<TechPrereq>, p: &TechPrereq) -> (r: Option<usize>)
    ensures
        r matches Some(i) ==> i < prereqs@.len() && pair_keys(prereqs@)[i as int] == (p.from@, p.to@),
        r is None ==> !pair_keys(prereqs@).contains((p.from@, p.to@)),
{
    let mut i: usize = 0;
    while i < prereqs.len()
        invariant
            i <= prereqs@.len(),
            forall|k: int| 0 <= k < i ==> pair_keys(prereqs@)[k] != (p.from@, p.to@),
        decreases prereqs@.len() - i,
    {
        if same_text(prereqs[i].from.as_str(), p.from.as_str()) && same_text(
            prereqs[i].to.as_str(),
            p.to.as_str(),
        ) {
            return Some(i);
        }
        i = i + 1;
    }
    None
}

/// Merge prerequisites by their `(from, to)` pair: an addition replaces the
/// prerequisite with the same pair, or is appended when there is none.
pub fn merge_prereqs(prereqs: &mut Vec<TechPrereq>, additions: Vec<TechPrereq>)
    ensures
        pair_keys(final(prereqs)@) == pairs_merged(pair_keys(old(prereqs)@), pair_keys(additions@)),
{
    let ghost start = pair_keys(prereqs@);
    let ghost all = additions@;
    let mut rest = additions;
    let total = rest.len();
    let mut done: usize = 0;
    while done < total
        invariant
            all.len() == total,
            done <= total,
            done + rest@.len() == all.len(),
            rest@ == all.subrange(done as int, all.len() as int),
            pair_keys(prereqs@) == pairs_merged(start, pair_keys(all.subrange(0, done as int))),
        decreases total - done,
    {
        let item = rest.remove(0);
        let ghost before = prereqs@;
        let ghost k = (item.from@, item.to@);
        proof {
            assert(item == all[done as int]);
            assert(pair_keys(all.subrange(0, done + 1)).drop_last() =~= pair_keys(all.subrange(0, done as int)));
            assert(pair_keys(all.subrange(0, done + 1)).last() == k);
            assert(rest@ =~= all.subrange(done + 1, all.len() as int));
        }
        match position_by_pair(prereqs, &item) {
            Some(i) => {
                prereqs.set(i, item);
                proof {
                    assert(pair_keys(prereqs@) =~= pair_keys(before));
                    assert(pair_keys(before)[i as int] == k);
                }
            },
            None => {
                prereqs.push(item);
                proof {
                    assert(pair_keys(prereqs@) =~= pair_keys(before).push(k));
                }
            },
        }
        done = done + 1;
    }
    proof {
        assert(all.subrange(0, done as int) =~= all);
    }
}

/// Layer one mod's data over `data`: every table is merged by identifier
/// (the mod's entry wins), prerequisites by their `(from, to)` pair.
pub fn apply_mod_data(data: &mut GameData, overlay: GameData)
    ensures
        final(data).hull_classes@ == merged(old(data).hull_classes@, overlay.hull_classes@),
        final(data).engines@ == merged(old(data).engines@, overlay.engines@),
        final(data).weapons@ == merged(old(data).weapons@, overlay.weapons@),
        final(data).shields@ == merged(old(data).shields@, overlay.shields@),
        final(data).scanners@ == merged(old(data).scanners@, overlay.scanners@),
        final(data).special_modules@ == merged(old(data).special_modules@, overlay.special_modules@),
        final(data).techs@ == merged(old(data).techs@, overlay.techs@),
        final(data).species@ == merged(old(data).species@, overlay.species@),
        final(data).surface_buildings@ == merged(old(data).surface_buildings@, overlay.surface_buildings@),
        pair_keys(final(data).research_prereqs@) == pairs_merged(
            pair_keys(old(data).research_prereqs@),
            pair_keys(overlay.research_prereqs@),
        ),
{
    let GameData {
        hull_classes,
        engines,
        weapons,
        shields,
        scanners,
        special_modules,
        techs,
        research_prereqs,
        species,
        surface_buildings,
    } = overlay;
    merge_by_id(&mut data.hull_classes, hull_classes);
    merge_by_id(&mut data.engines, engines);
    merge_by_id(&mut data.weapons, weapons);
    merge_by_id(&mut data.shields, shields);
    merge_by_id(&mut data.scanners, scanners);
    merge_by_id(&mut data.special_modules, special_modules);
    merge_by_id(&mut data.techs, techs);
    merge_prereqs(&mut data.research_prereqs, research_prereqs);
    merge_by_id(&mut data.species, species);
    merge_by_id(&mut data.surface_buildings, surface_buildings);
}

/// Split mods into those to load, in load order, and those rejected because
/// they were written for a newer schema than `runtime_version`.
pub fn select_mods(mods: Vec<ModInfo>, runtime_version: u32) -> (r: (Vec<ModInfo>, Vec<ModInfo>))
    ensures
        r.0@.to_multiset().add(r.1@.to_multiset()) == mods@.to_multiset(),
        forall|i: int| 0 <= i < r.0@.len() ==> #[trigger] r.0@[i].data_schema_version <= runtime_version,
        forall|i: int| 0 <= i < r.1@.len() ==> #[trigger] r.1@[i].data_schema_version > runtime_version,
        in_load_order(r.0@),
{
    broadcast use vstd::seq_lib::group_to_multiset_ensures;

    let mut rest = mods;
    let mut accepted: Vec<ModInfo> = Vec::new();
    let mut rejected: Vec<ModInfo> = Vec::new();
    while rest.len() > 0
        invariant
            accepted@.to_multiset().add(rejected@.to_multiset()).add(rest@.to_multiset())
                == mods@.to_multiset(),
            forall|i: int| 0 <= i < accepted@.len() ==> #[trigger] accepted@[i].data_schema_version <= runtime_version,
            forall|i: int| 0 <= i < rejected@.len() ==> #[trigger] rejected@[i].data_schema_version > runtime_version,
        decreases rest.len(),
    {
        let ghost old_rest = rest@;
        let ghost old_acc = accepted@;
        let ghost old_rej = rejected@;
        let m = rest.remove(0);
        proof {
            vstd::seq_lib::to_multiset_remove(old_rest, 0);
            assert(old_rest[0] == m);
            assert(old_rest.contains(m));
            old_rest.to_multiset_ensures();
            assert(old_rest.to_multiset().count(m) > 0);
            assert(rest@ == old_rest.remove(0));
            assert(rest@.to_multiset() == old_rest.to_multiset().remove(m));
        }
        if schema_supported(m.data_schema_version, runtime_version) {
            accepted.push(m);
            proof {
                assert(accepted@ == old_acc.push(m));
                vstd::seq_lib::to_multiset_build(old_acc, m);
                assert(accepted@.to_multiset().add(rejected@.to_multiset()).add(rest@.to_multiset())
                    =~= old_acc.to_multiset().add(old_rej.to_multiset()).add(old_rest.to_multiset()));
            }
        } else {
            rejected.push(m);
            proof {
                assert(rejected@ == old_rej.push(m));
                vstd::seq_lib::to_multiset_build(old_rej, m);
                assert(accepted@.to_multiset().add(rejected@.to_multiset()).add(rest@.to_multiset())
                    =~= old_acc.to_multiset().add(old_rej.to_multiset()).add(old_rest.to_multiset()));
            }
        }
    }
    let ghost acc = accepted@;
    let ordered = load_order(accepted);
    proof {
        assert(rest@.to_multiset() =~= Multiset::empty());
        assert forall|i: int| 0 <= i < ordered@.len() implies #[trigger] ordered@[i].data_schema_version
            <= runtime_version by {
            assert(ordered@.contains(ordered@[i]));
            assert(ordered@.to_multiset().count(ordered@[i]) > 0);
            assert(acc.to_multiset().count(ordered@[i]) > 0);
            assert(acc.contains(ordered@[i]));
        }
        assert(ordered@.to_multiset().add(rejected@.to_multiset()) =~= acc.to_multiset().add(
            rejected@.to_multiset(),
        ).add(rest@.to_multiset()));
    }
    (ordered, rejected)
}

} // verus!
