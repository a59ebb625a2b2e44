//! The inventory builder: partitioning the discovered files into studies.
//!
//! The attribute reader outside the library hands in, for every discovered
//! file, its path and the study and instance keys it could read.  The builder
//! retains each file whose keys were both read, whose instance key does not
//! mark it as a previously produced result, and whose (study key, instance
//! key) pair has not been seen before; it groups the retained files into one
//! study per study key, in order of first appearance, each study holding its
//! files in input order.

use vstd::prelude::*;

use crate::search::is_match_at;
use crate::search::match_at;
use vstd::utf8::encode_utf8;

verus! {

/// One discovered file with the outcome of its attribute read.  A key that
/// could not be read (the file did not parse, or lacks the attribute) is
/// absent.
#[derive(Clone, Debug)]
pub struct ScannedFile {
    pub path: String,
    pub study_key: Option<String>,
    pub instance_key: Option<String>,
}

/// One file of a study: its instance key and its path.
#[derive(Clone, Debug)]
pub struct StudyEntry {
    pub instance_key: String,
    pub path: String,
}

/// A study: its key and its ordered files, unique by instance key.
#[derive(Clone, Debug)]
pub struct Study {
    pub study_key: String,
    pub entries: Vec<StudyEntry>,
}

/// Whether both keys of a scanned file were read.
pub open spec fn has_keys(f: ScannedFile) -> bool {
    f.study_key is Some && f.instance_key is Some
}

/// The study key of a scanned file, empty when it is absent.
pub open spec fn f_study(f: ScannedFile) -> Seq<char> {
    match f.study_key {
        Option::Some(s) => s@,
        Option::None => Seq::empty(),
    }
}

/// The instance key of a scanned file, empty when it is absent.
pub open spec fn f_instance(f: ScannedFile) -> Seq<char> {
    match f.instance_key {
        Option::Some(s) => s@,
        Option::None => Seq::empty(),
    }
}

/// The identifier-namespace root under which the analysis service numbers
/// the files it produces itself.
pub open spec fn result_uid_root() -> Seq<u8> {
    seq![
        49u8, 46u8, 50u8, 46u8, 56u8, 50u8, 54u8, 46u8, 48u8, 46u8, 49u8, 46u8, 51u8, 54u8, 56u8,
        48u8, 48u8, 52u8, 51u8, 46u8, 49u8, 48u8, 46u8, 52u8, 53u8, 55u8,
    ]
}

/// Whether an instance key marks a file as a result the service produced:
/// the key starts with the service's identifier root.
pub open spec fn is_result_key(key: Seq<char>) -> bool {
    match_at(encode_utf8(key), result_uid_root(), 0)
}

/// Whether a scanned file is eligible for the inventory: both keys read and
/// not a previously produced result.
pub open spec fn eligible(f: ScannedFile) -> bool {
    has_keys(f) && !is_result_key(f_instance(f))
}

/// Whether an earlier eligible file carries the same study and instance keys
/// as file `i`.
pub open spec fn dup_of_earlier(files: Seq<ScannedFile>, i: int) -> bool {
    exists|j: int|
        #![trigger files[j]]
        0 <= j < i && eligible(files[j]) && f_study(files[j]) == f_study(files[i]) && f_instance(
            files[j],
        ) == f_instance(files[i])
}

/// Whether file `i` is retained in the inventory: eligible, and the first
/// eligible file with its (study key, instance key) pair.  A later file with
/// the same pair is rejected, so that nothing is silently overwritten.
pub open spec fn spec_retained(files: Seq<ScannedFile>, i: int) -> bool {
    0 <= i < files.len() && eligible(files[i]) && !dup_of_earlier(files, i)
}

/// The study keys of the inventory built from the first `upto` files, in
/// order of first appearance.
pub open spec fn spec_study_keys(files: Seq<ScannedFile>, upto: int) -> Seq<Seq<char>>
    decreases upto,
{
    if upto <= 0 {
        Seq::empty()
    } else {
        let prev = spec_study_keys(files, upto - 1);
        if spec_retained(files, upto - 1) && !prev.contains(f_study(files[upto - 1])) {
            prev.push(f_study(files[upto - 1]))
        } else {
            prev
        }
    }
}

/// The (instance key, path) pairs of study `sk` after the first `upto`
/// files, in input order.
pub open spec fn spec_study_entries(files: Seq<ScannedFile>, sk: Seq<char>, upto: int) -> Seq<
    (Seq<char>, Seq<char>),
>
    decreases upto,
{
    if upto <= 0 {
        Seq::empty()
    } else {
        let prev = spec_study_entries(files, sk, upto - 1);
        if spec_retained(files, upto - 1) && f_study(files[upto - 1]) == sk {
            prev.push((f_instance(files[upto - 1]), files[upto - 1].path@))
        } else {
            prev
        }
    }
}

/// The study keys an inventory exhibits.
pub open spec fn inv_keys(inv: Seq<Study>) -> Seq<Seq<char>> {
    inv.map_values(|st: Study| st.study_key@)
}

/// The views of a study's entries.
pub open spec fn entry_views(es: Seq<StudyEntry>) -> Seq<(Seq<char>, Seq<char>)> {
    es.map_values(|e: StudyEntry| (e.instance_key@, e.path@))
}

/// What the builder promises of its result: the studies carry exactly the
/// study keys of the retained files in order of first appearance, and each
/// study holds exactly the retained files of its key, in input order.
pub open spec fn inventory_matches(inv: Seq<Study>, files: Seq<ScannedFile>) -> bool {
    &&& inv_keys(inv) == spec_study_keys(files, files.len() as int)
    &&& forall|s: int|
        0 <= s < inv.len() ==> entry_views(#[trigger] inv[s].entries@) == spec_study_entries(
            files,
            inv[s].study_key@,
            files.len() as int,
        )
}

/// A retained file's study key stands among the study keys.
proof fn lemma_retained_in_keys(files: Seq<ScannedFile>, i: int, upto: int)
    requires
        spec_retained(files, i),
        i < upto,
    ensures
        spec_study_keys(files, upto).contains(f_study(files[i])),
    decreases upto,
{
    let prev = spec_study_keys(files, upto - 1);
    if upto - 1 == i {
        if !prev.contains(f_study(files[i])) {
            assert(spec_study_keys(files, upto).last() == f_study(files[i]));
        }
    } else {
        lemma_retained_in_keys(files, i, upto - 1);
        let k = choose|k: int| 0 <= k < prev.len() && prev[k] == f_study(files[i]);
        assert(spec_study_keys(files, upto)[k] == f_study(files[i]));
    }
}

/// A retained file's pair stands among its study's entries.
proof fn lemma_retained_in_entries(files: Seq<ScannedFile>, i: int, upto: int)
    requires
        spec_retained(files, i),
        i < upto,
    ensures
        spec_study_entries(files, f_study(files[i]), upto).contains(
            (f_instance(files[i]), files[i].path@),
        ),
    decreases upto,
{
    let sk = f_study(files[i]);
    let prev = spec_study_entries(files, sk, upto - 1);
    if upto - 1 == i {
        assert(spec_study_entries(files, sk, upto).last() == (f_instance(files[i]),
        files[i].path@));
    } else {
        lemma_retained_in_entries(files, i, upto - 1);
        let k = choose|k: int|
            0 <= k < prev.len() && prev[k] == (f_instance(files[i]), files[i].path@);
        assert(spec_study_entries(files, sk, upto)[k] == (f_instance(files[i]), files[i].path@));
    }
}

/// Every entry of a study traces back to a retained file with that study
/// key, the entry's instance key and the entry's path.
proof fn lemma_entries_source(files: Seq<ScannedFile>, sk: Seq<char>, upto: int)
    requires
        upto <= files.len(),
    ensures
        forall|e: int|
            #![trigger spec_study_entries(files, sk, upto)[e]]
            0 <= e < spec_study_entries(files, sk, upto).len() ==> exists|j: int|
                #![trigger files[j]]
                0 <= j < upto && spec_retained(files, j) && f_study(files[j]) == sk && f_instance(
                    files[j],
                ) == spec_study_entries(files, sk, upto)[e].0 && files[j].path@
                    == spec_study_entries(files, sk, upto)[e].1,
    decreases upto,
{
    if upto > 0 {
        lemma_entries_source(files, sk, upto - 1);
        let prev = spec_study_entries(files, sk, upto - 1);
        let cur = spec_study_entries(files, sk, upto);
        assert forall|e: int| #![trigger cur[e]] 0 <= e < cur.len() implies exists|j: int|
            #![trigger files[j]]
            0 <= j < upto && spec_retained(files, j) && f_study(files[j]) == sk && f_instance(
                files[j],
            ) == cur[e].0 && files[j].path@ == cur[e].1 by {
            if e < prev.len() {
                assert(cur[e] == prev[e]);
                let j = choose|j: int|
                    #![trigger files[j]]
                    0 <= j < upto - 1 && spec_retained(files, j) && f_study(files[j]) == sk
                        && f_instance(files[j]) == prev[e].0 && files[j].path@ == prev[e].1;
                assert(0 <= j < upto && spec_retained(files, j) && f_study(files[j]) == sk
                    && f_instance(files[j]) == cur[e].0 && files[j].path@ == cur[e].1);
            } else {
                assert(spec_retained(files, upto - 1) && f_study(files[upto - 1]) == sk);
                assert(cur[e] == (f_instance(files[upto - 1]), files[upto - 1].path@));
                assert(0 <= upto - 1 < upto && spec_retained(files, upto - 1) && f_study(
                    files[upto - 1],
                ) == sk && f_instance(files[upto - 1]) == cur[e].0 && files[upto - 1].path@
                    == cur[e].1);
            }
        }
    }
}

/// Among the eligible files that share one (study key, instance key) pair,
/// the first is retained.
proof fn lemma_first_dup(files: Seq<ScannedFile>, j: int)
    requires
        0 <= j < files.len(),
        eligible(files[j]),
    ensures
        exists|k: int|
            #![trigger files[k]]
            0 <= k <= j && spec_retained(files, k) && f_study(files[k]) == f_study(files[j])
                && f_instance(files[k]) == f_instance(files[j]),
    decreases j,
{
    if spec_retained(files, j) {
        assert(0 <= j <= j && spec_retained(files, j) && f_study(files[j]) == f_study(files[j])
            && f_instance(files[j]) == f_instance(files[j]));
    } else {
        assert(dup_of_earlier(files, j));
        let j2 = choose|j2: int|
            #![trigger files[j2]]
            0 <= j2 < j && eligible(files[j2]) && f_study(files[j2]) == f_study(files[j])
                && f_instance(files[j2]) == f_instance(files[j]);
        lemma_first_dup(files, j2);
        let k = choose|k: int|
            #![trigger files[k]]
            0 <= k <= j2 && spec_retained(files, k) && f_study(files[k]) == f_study(files[j2])
                && f_instance(files[k]) == f_instance(files[j2]);
        assert(0 <= k <= j && spec_retained(files, k) && f_study(files[k]) == f_study(files[j])
            && f_instance(files[k]) == f_instance(files[j]));
    }
}

/// The study keys are distinct: a key is pushed only when it is new.
proof fn lemma_keys_distinct(files: Seq<ScannedFile>, upto: int)
    ensures
        forall|s1: int, s2: int|
            0 <= s1 < s2 < spec_study_keys(files, upto).len() ==> spec_study_keys(files, upto)[s1]
                != spec_study_keys(files, upto)[s2],
    decreases upto,
{
    if upto > 0 {
        lemma_keys_distinct(files, upto - 1);
        let prev = spec_study_keys(files, upto - 1);
        let cur = spec_study_keys(files, upto);
        if cur.len() > prev.len() {
            assert forall|s1: int, s2: int|
                0 <= s1 < s2 < cur.len() implies cur[s1] != cur[s2] by {
                if s2 == cur.len() - 1 {
                    assert(!prev.contains(f_study(files[upto - 1])));
                    assert(cur[s1] == prev[s1]);
                }
            }
        }
    }
}

/// A study key that never appears has no entries.
proof fn lemma_no_key_no_entries(files: Seq<ScannedFile>, sk: Seq<char>, upto: int)
    requires
        upto <= files.len(),
        !spec_study_keys(files, upto).contains(sk),
    ensures
        spec_study_entries(files, sk, upto).len() == 0,
    decreases upto,
{
    if upto > 0 {
        let prev = spec_study_keys(files, upto - 1);
        assert forall|k: int| 0 <= k < prev.len() implies !(prev[k] == sk) by {
            assert(spec_study_keys(files, upto)[k] == prev[k]);
        }
        lemma_no_key_no_entries(files, sk, upto - 1);
        if spec_retained(files, upto - 1) && f_study(files[upto - 1]) == sk {
            lemma_retained_in_keys(files, upto - 1, upto);
        }
    }
}


/// The position of the study with key `sk`, if one exists.
fn find_study(inv: &Vec<Study>, sk: &String) -> (r: Option<usize>)
    ensures
        match r {
            Some(s) => s < inv@.len() && inv@[s as int].study_key@ == sk@,
            None => forall|s: int| 0 <= s < inv@.len() ==> inv@[s].study_key@ != sk@,
        },
{
    let n = inv.len();
    let mut s: usize = 0;
    while s < n
        invariant
            n == inv@.len(),
            0 <= s <= n,
            forall|t: int| 0 <= t < s ==> inv@[t].study_key@ != sk@,
        decreases n - s,
    {
        if inv[s].study_key == *sk {
            return Some(s);
        }
        s += 1;
    }
    None
}

/// Whether a study already holds an entry with instance key `ik`.
fn has_entry(entries: &Vec<StudyEntry>, ik: &String) -> (r: bool)
    ensures
        r == exists|e: int| 0 <= e < entries@.len() && (#[trigger] entries@[e]).instance_key@ == ik@,
{
    let n = entries.len();
    let mut e: usize = 0;
    while e < n
        invariant
            n == entries@.len(),
            0 <= e <= n,
            forall|t: int| 0 <= t < e ==> (#[trigger] entries@[t]).instance_key@ != ik@,
        decreases n - e,
    {
        if entries[e].instance_key == *ik {
            assert(entries@[e as int].instance_key@ == ik@);
            return true;
        }
        e += 1;
    }
    false
}

/// Whether an instance key marks a previously produced result.
fn is_result_instance(ik: &String) -> (r: bool)
    ensures
        r == is_result_key(ik@),
{
    let root: Vec<u8> = vec![
        49u8, 46u8, 50u8, 46u8, 56u8, 50u8, 54u8, 46u8, 48u8, 46u8, 49u8, 46u8, 51u8, 54u8, 56u8,
        48u8, 48u8, 52u8, 51u8, 46u8, 49u8, 48u8, 46u8, 52u8, 53u8, 55u8,
    ];
    assert(root@ =~= result_uid_root());
    let kb = ik.as_str().as_bytes_vec();
    if root.len() <= kb.len() {
        is_match_at(&kb, &root, 0)
    } else {
        assert(!match_at(kb@, root@, 0));
        false
    }
}

/// Builds the inventory from the scanned files.  A file whose keys could not
/// be read, or whose instance key marks it as a previously produced result,
/// or that repeats an earlier file's (study key, instance key) pair, is
/// excluded; the build itself never fails.  With no file retained there is
/// no inventory, which the caller treats as a normal early exit.
pub fn inventory_from_scans(files: &Vec<ScannedFile>) -> (r: Option<Vec<Study>>)
    ensures
        match r {
            Some(inv) => inventory_matches(inv@, files@) && inv@.len() > 0,
            None => spec_study_keys(files@, files@.len() as int).len() == 0,
        },
{
    let n = files.len();
    let mut inv: Vec<Study> = Vec::new();
    let mut idx: usize = 0;
    assert(inv_keys(inv@) =~= spec_study_keys(files@, 0));
    while idx < n
        invariant
            n == files@.len(),
            0 <= idx <= n,
            inv_keys(inv@) == spec_study_keys(files@, idx as int),
            forall|s: int|
                0 <= s < inv@.len() ==> entry_views(#[trigger] inv@[s].entries@)
                    == spec_study_entries(files@, inv@[s].study_key@, idx as int),
        decreases n - idx,
    {
        let ghost gi = idx as int;
        let f = &files[idx];
        let mut retained = false;
        let ghost old_inv = inv@;
        if let Some(sk) = &f.study_key {
            if let Some(ik) = &f.instance_key {
                if !is_result_instance(ik) {
                    assert(eligible(files@[gi]));
                    assert(f_study(files@[gi]) == sk@);
                    assert(f_instance(files@[gi]) == ik@);
                    match find_study(&inv, sk) {
                        Some(s) => {
                            if has_entry(&inv[s].entries, ik) {
                                // the pair was seen before: reject the file
                                proof {
                                    let e = choose|e: int|
                                        0 <= e < inv@[s as int].entries@.len() && (
                                        #[trigger] inv@[s as int].entries@[e]).instance_key@
                                            == ik@;
                                    assert(entry_views(inv@[s as int].entries@)[e].0 == ik@);
                                    lemma_entries_source(files@, sk@, gi);
                                    let j = choose|j: int|
                                        #![trigger files@[j]]
                                        0 <= j < gi && spec_retained(files@, j) && f_study(
                                            files@[j],
                                        ) == sk@ && f_instance(files@[j]) == spec_study_entries(
                                            files@,
                                            sk@,
                                            gi,
                                        )[e].0 && files@[j].path@ == spec_study_entries(
                                            files@,
                                            sk@,
                                            gi,
                                        )[e].1;
                                    assert(eligible(files@[j]));
                                    assert(dup_of_earlier(files@, gi));
                                }
                            } else {
                                retained = true;
                                proof {
                                    if dup_of_earlier(files@, gi) {
                                        let j = choose|j: int|
                                            #![trigger files@[j]]
                                            0 <= j < gi && eligible(files@[j]) && f_study(
                                                files@[j],
                                            ) == f_study(files@[gi]) && f_instance(files@[j])
                                                == f_instance(files@[gi]);
                                        lemma_first_dup(files@, j);
                                        let k = choose|k: int|
                                            #![trigger files@[k]]
                                            0 <= k <= j && spec_retained(files@, k) && f_study(
                                                files@[k],
                                            ) == f_study(files@[j]) && f_instance(files@[k])
                                                == f_instance(files@[j]);
                                        lemma_retained_in_entries(files@, k, gi);
                                        let pair = (f_instance(files@[k]), files@[k].path@);
                                        let es = spec_study_entries(files@, sk@, gi);
                                        let e = choose|e: int|
                                            0 <= e < es.len() && es[e] == pair;
                                        assert(entry_views(inv@[s as int].entries@)[e] == pair);
                                        assert(inv@[s as int].entries@[e].instance_key@ == ik@);
                                    }
                                    assert(spec_retained(files@, gi));
                                }
                                let entry = StudyEntry {
                                    instance_key: ik.clone(),
                                    path: f.path.clone(),
                                };
                                let ghost ev = entry;
                                inv[s].entries.push(entry);
                                proof {
                                    assert(inv@.len() == old_inv.len());
                                    assert(inv@[s as int].study_key
                                        == old_inv[s as int].study_key);
                                    assert(inv@[s as int].entries@ == old_inv[
                                        s as int
                                    ].entries@.push(ev));
                                    assert(forall|s2: int|
                                        0 <= s2 < inv@.len() && s2 != s as int
                                            ==> inv@[s2] == old_inv[s2]);
                                    lemma_keys_distinct(files@, gi);
                                    assert(inv_keys(old_inv)[s as int] == sk@);
                                    assert(spec_study_keys(files@, gi).contains(sk@));
                                    assert(inv_keys(inv@) =~= inv_keys(old_inv));
                                    assert(inv_keys(inv@) =~= spec_study_keys(
                                        files@,
                                        gi + 1,
                                    ));
                                    assert forall|s2: int|
                                        0 <= s2 < inv@.len() implies entry_views(
                                        #[trigger] inv@[s2].entries@,
                                    ) == spec_study_entries(
                                        files@,
                                        inv@[s2].study_key@,
                                        gi + 1,
                                    ) by {
                                        if s2 == s as int {
                                            assert(entry_views(inv@[s2].entries@)
                                                =~= entry_views(old_inv[s2].entries@).push(
                                                (ik@, files@[gi].path@),
                                            ));
                                        } else {
                                            assert(inv_keys(old_inv)[s2]
                                                != inv_keys(old_inv)[s as int]);
                                            assert(inv@[s2] == old_inv[s2]);
                                        }
                                    }
                                }
                            }
                        },
                        None => {
                            retained = true;
                            proof {
                                assert(!spec_study_keys(files@, gi).contains(sk@)) by {
                                    if spec_study_keys(files@, gi).contains(sk@) {
                                        let k = choose|k: int|
                                            0 <= k < spec_study_keys(files@, gi).len()
                                                && spec_study_keys(files@, gi)[k] == sk@;
                                        assert(inv_keys(inv@)[k] == sk@);
                                        assert(inv@[k].study_key@ == sk@);
                                    }
                                }
                                if dup_of_earlier(files@, gi) {
                                    let j = choose|j: int|
                                        #![trigger files@[j]]
                                        0 <= j < gi && eligible(files@[j]) && f_study(files@[j])
                                            == f_study(files@[gi]) && f_instance(files@[j])
                                            == f_instance(files@[gi]);
                                    lemma_first_dup(files@, j);
                                    let k = choose|k: int|
                                        #![trigger files@[k]]
                                        0 <= k <= j && spec_retained(files@, k) && f_study(
                                            files@[k],
                                        ) == f_study(files@[j]) && f_instance(files@[k])
                                            == f_instance(files@[j]);
                                    lemma_retained_in_keys(files@, k, gi);
                                }
                                assert(spec_retained(files@, gi));
                                lemma_no_key_no_entries(files@, sk@, gi);
                            }
                            let entry = StudyEntry {
                                instance_key: ik.clone(),
                                path: f.path.clone(),
                            };
                            let mut entries: Vec<StudyEntry> = Vec::new();
                            entries.push(entry);
                            inv.push(Study { study_key: sk.clone(), entries });
                            proof {
                                assert(inv_keys(inv@) =~= inv_keys(old_inv).push(sk@));
                                assert(spec_study_keys(files@, gi + 1) == spec_study_keys(
                                    files@,
                                    gi,
                                ).push(sk@));
                                assert forall|s2: int|
                                    0 <= s2 < inv@.len() implies entry_views(
                                    #[trigger] inv@[s2].entries@,
                                ) == spec_study_entries(
                                    files@,
                                    inv@[s2].study_key@,
                                    gi + 1,
                                ) by {
                                    if s2 == inv@.len() - 1 {
                                        assert(entry_views(inv@[s2].entries@) =~= Seq::<
                                            (Seq<char>, Seq<char>),
                                        >::empty().push((ik@, files@[gi].path@)));
                                        assert(spec_study_entries(files@, sk@, gi + 1)
                                            =~= spec_study_entries(files@, sk@, gi).push(
                                            (ik@, files@[gi].path@),
                                        ));
                                    } else {
                                        assert(inv@[s2] == old_inv[s2]);
                                        assert(inv@[s2].study_key@ != sk@);
                                    }
                                }
                            }
                        },
                    }
                }
            }
        }
        proof {
            if !retained {
                assert(!spec_retained(files@, gi));
                assert(spec_study_keys(files@, gi + 1) == spec_study_keys(files@, gi));
                assert forall|s2: int|
                    0 <= s2 < inv@.len() implies entry_views(#[trigger] inv@[s2].entries@)
                    == spec_study_entries(files@, inv@[s2].study_key@, gi + 1) by {
                    assert(spec_study_entries(files@, inv@[s2].study_key@, gi + 1)
                        == spec_study_entries(files@, inv@[s2].study_key@, gi));
                }
            }
        }
        idx += 1;
    }
    if inv.is_empty() {
        assert(spec_study_keys(files@, files@.len() as int).len() == inv_keys(inv@).len());
        None
    } else {
        Some(inv)
    }
}

/// Whether file `i`'s place in the inventory is study `st`: the file is
/// retained, the study carries its study key, and the study holds its
/// (instance key, path) entry.
pub open spec fn file_in_study(files: Seq<ScannedFile>, i: int, st: Study) -> bool {
    &&& spec_retained(files, i)
    &&& st.study_key@ == f_study(files[i])
    &&& exists|e: int|
        0 <= e < st.entries@.len() && (#[trigger] st.entries@[e]).instance_key@ == f_instance(
            files[i],
        ) && st.entries@[e].path@ == files[i].path@
}

/// Grouping invariant, first half: every retained file stands in exactly one
/// study, the one keyed by its study key.
pub proof fn lemma_retained_has_study(files: Seq<ScannedFile>, inv: Seq<Study>, i: int)
    requires
        inventory_matches(inv, files),
        spec_retained(files, i),
    ensures
        exists|s: int| 0 <= s < inv.len() && file_in_study(files, i, #[trigger] inv[s]),
        forall|s1: int, s2: int|
            0 <= s1 < inv.len() && 0 <= s2 < inv.len() && file_in_study(files, i, inv[s1])
                && file_in_study(files, i, inv[s2]) ==> s1 == s2,
{
    let n = files.len() as int;
    let sk = f_study(files[i]);
    lemma_retained_in_keys(files, i, n);
    let keys = spec_study_keys(files, n);
    let s = choose|s: int| 0 <= s < keys.len() && keys[s] == sk;
    assert(inv_keys(inv)[s] == sk);
    assert(inv[s].study_key@ == sk);
    lemma_retained_in_entries(files, i, n);
    let pair = (f_instance(files[i]), files[i].path@);
    let es = spec_study_entries(files, sk, n);
    let e = choose|e: int| 0 <= e < es.len() && es[e] == pair;
    assert(entry_views(inv[s].entries@)[e] == pair);
    assert(inv[s].entries@[e].instance_key@ == pair.0 && inv[s].entries@[e].path@ == pair.1);
    assert(file_in_study(files, i, inv[s]));
    lemma_keys_distinct(files, n);
    assert forall|s1: int, s2: int|
        0 <= s1 < inv.len() && 0 <= s2 < inv.len() && file_in_study(files, i, inv[s1])
            && file_in_study(files, i, inv[s2]) implies s1 == s2 by {
        if s1 != s2 {
            assert(inv_keys(inv)[s1] == inv[s1].study_key@);
            assert(inv_keys(inv)[s2] == inv[s2].study_key@);
        }
    }
}

/// Grouping invariant: two retained files stand in one common study exactly
/// when they share a study key.  A file whose keys could not be read is
/// retained nowhere.
pub proof fn lemma_grouping_invariant(files: Seq<ScannedFile>, inv: Seq<Study>, i: int, j: int)
    requires
        inventory_matches(inv, files),
        spec_retained(files, i),
        spec_retained(files, j),
    ensures
        (exists|s: int|
            0 <= s < inv.len() && file_in_study(files, i, #[trigger] inv[s]) && file_in_study(
                files,
                j,
                inv[s],
            )) <==> f_study(files[i]) == f_study(files[j]),
{
    if f_study(files[i]) == f_study(files[j]) {
        lemma_retained_has_study(files, inv, i);
        lemma_retained_has_study(files, inv, j);
        let si = choose|s: int| 0 <= s < inv.len() && file_in_study(files, i, #[trigger] inv[s]);
        let sj = choose|s: int| 0 <= s < inv.len() && file_in_study(files, j, #[trigger] inv[s]);
        lemma_keys_distinct(files, files.len() as int);
        if si != sj {
            assert(inv_keys(inv)[si] == inv[si].study_key@);
            assert(inv_keys(inv)[sj] == inv[sj].study_key@);
        }
        assert(file_in_study(files, i, inv[si]) && file_in_study(files, j, inv[si]));
    }
}


/// A file whose keys could not be read is excluded from every study: no
/// study holds a place for it, and the build went through regardless.
pub proof fn lemma_keyless_excluded(files: Seq<ScannedFile>, inv: Seq<Study>, i: int)
    requires
        inventory_matches(inv, files),
        0 <= i < files.len(),
        !has_keys(files[i]),
    ensures
        forall|s: int| 0 <= s < inv.len() ==> !file_in_study(files, i, #[trigger] inv[s]),
{
    assert(!eligible(files[i]));
}

} // verus!

verus! {

/// Under one study key the collected instance keys are distinct: a later
/// file that repeats an earlier (study key, instance key) pair is rejected,
/// never appended and never overwriting.
proof fn lemma_entries_instances_distinct(files: Seq<ScannedFile>, sk: Seq<char>, upto: int)
    requires
        upto <= files.len(),
    ensures
        forall|e1: int, e2: int|
            0 <= e1 < e2 < spec_study_entries(files, sk, upto).len() ==> spec_study_entries(
                files,
                sk,
                upto,
            )[e1].0 != spec_study_entries(files, sk, upto)[e2].0,
    decreases upto,
{
    if upto > 0 {
        lemma_entries_instances_distinct(files, sk, upto - 1);
        let prev = spec_study_entries(files, sk, upto - 1);
        let cur = spec_study_entries(files, sk, upto);
        if cur.len() > prev.len() {
            lemma_entries_source(files, sk, upto - 1);
            assert forall|e1: int, e2: int|
                0 <= e1 < e2 < cur.len() implies cur[e1].0 != cur[e2].0 by {
                if e2 == cur.len() - 1 {
                    assert(cur[e1] == prev[e1]);
                    assert(prev[e1] == spec_study_entries(files, sk, upto - 1)[e1]);
                    let j = choose|j: int|
                        #![trigger files[j]]
                        0 <= j < upto - 1 && spec_retained(files, j) && f_study(files[j]) == sk
                            && f_instance(files[j]) == prev[e1].0 && files[j].path@
                            == prev[e1].1;
                    if cur[e1].0 == cur[e2].0 {
                        assert(eligible(files[j]));
                        assert(f_instance(files[j]) == f_instance(files[upto - 1]));
                        assert(f_study(files[j]) == f_study(files[upto - 1]));
                        assert(dup_of_earlier(files, upto - 1));
                    }
                } else {
                    assert(cur[e1] == prev[e1] && cur[e2] == prev[e2]);
                }
            }
        }
    }
}

/// Grouping invariant, uniqueness half: within one study of a built
/// inventory, instance keys are unique, so every retained file stands there
/// exactly once.
pub proof fn lemma_study_instance_keys_unique(files: Seq<ScannedFile>, inv: Seq<Study>, s: int)
    requires
        inventory_matches(inv, files),
        0 <= s < inv.len(),
    ensures
        forall|e1: int, e2: int|
            0 <= e1 < e2 < inv[s].entries@.len() ==> (#[trigger] inv[s].entries@[e1]).instance_key@
                != (#[trigger] inv[s].entries@[e2]).instance_key@,
{
    lemma_entries_instances_distinct(files, inv[s].study_key@, files.len() as int);
    let es = spec_study_entries(files, inv[s].study_key@, files.len() as int);
    assert forall|e1: int, e2: int|
        0 <= e1 < e2 < inv[s].entries@.len() implies (#[trigger] inv[s].entries@[e1]).instance_key@
        != (#[trigger] inv[s].entries@[e2]).instance_key@ by {
        assert(entry_views(inv[s].entries@)[e1] == es[e1]);
        assert(entry_views(inv[s].entries@)[e2] == es[e2]);
        assert(es[e1].0 != es[e2].0);
    }
}

} // verus!
