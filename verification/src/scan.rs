use vstd::prelude::*;

verus! {

use crate::AppEntry;
use crate::AppEntryV;
use crate::text::contains_lower;
use crate::text::contains_seq;
use crate::text::has_suffix;
use crate::text::lemma_lex_lt_transitive;
use crate::text::lemma_lex_lt_trichotomy;
use crate::text::lex_leq;
use crate::text::lex_lt;
use crate::text::lower;
use crate::text::matches_at;
use crate::text::str_lt;
use vstd::string::StrSliceExecFns;
use vstd::string::StringExecFns;

// The shortcut scanner. Directory walking is filesystem work and stays
// outside; this module takes, per scan root, the list of paths that the
// walk produced (in traversal order) and performs everything the result
// depends on: extension filtering, name derivation, noise filtering,
// first-occurrence deduplication by name, and an ascending sort by name.

/// What a walk over one scan root produced: whether the root exists on
/// disk, and the paths of the entries found under it, in traversal order.
pub struct RootListing {
    pub present: bool,
    pub files: Vec<String>,
}

/// The mathematical value of a [`RootListing`].
pub ghost struct RootListingV {
    pub present: bool,
    pub files: Seq<Seq<char>>,
}

impl View for RootListing {
    type V = RootListingV;

    open spec fn view(&self) -> RootListingV {
        RootListingV { present: self.present, files: self.files@.map_values(|s: String| s@) }
    }
}

/// Path separator characters recognized when splitting a path.
pub open spec fn is_sep(c: char) -> bool {
    c == '\\' || c == '/'
}

/// Length of the directory part of a path: the index just after the last
/// separator, or `0` when the path holds no separator.
pub open spec fn dir_len(p: Seq<char>) -> int
    decreases p.len(),
{
    if p.len() == 0 {
        0
    } else if is_sep(p[p.len() - 1]) {
        p.len() as int
    } else {
        dir_len(p.drop_last())
    }
}

/// The final path component: everything after the last separator.
pub open spec fn file_name_of(p: Seq<char>) -> Seq<char> {
    p.skip(dir_len(p))
}

/// The name of the immediate containing directory, or the empty sequence
/// when the path has none.
pub open spec fn parent_name_of(p: Seq<char>) -> Seq<char> {
    if dir_len(p) == 0 {
        Seq::empty()
    } else {
        file_name_of(p.take(dir_len(p) - 1))
    }
}

/// The category assigned to a path: its parent directory's name, or
/// `"Other"` when there is none.
pub open spec fn category_of(p: Seq<char>) -> Seq<char> {
    if parent_name_of(p).len() == 0 {
        "Other"@
    } else {
        parent_name_of(p)
    }
}

/// A file name carries the shortcut extension: it ends in `".lnk"` and
/// has a non-empty base name in front of it.
pub open spec fn has_lnk_ext(name: Seq<char>) -> bool {
    name.len() > 4 && matches_at(name, ".lnk"@, name.len() - 4)
}

/// The base name: the file name with the four-character extension removed.
pub open spec fn stem_of(name: Seq<char>) -> Seq<char> {
    name.take(name.len() - 4)
}

/// A candidate name is noise when its ASCII-lower-cased form contains any
/// of the noise words as a substring (not only as a whole word).
pub open spec fn is_noise(name: Seq<char>) -> bool {
    ||| contains_seq(lower(name), "uninstall"@)
    ||| contains_seq(lower(name), "readme"@)
    ||| contains_seq(lower(name), "help"@)
    ||| contains_seq(lower(name), "manual"@)
}

/// A path survives the filter: shortcut extension and no noise word.
pub open spec fn keeps(p: Seq<char>) -> bool {
    has_lnk_ext(file_name_of(p)) && !is_noise(stem_of(file_name_of(p)))
}

/// The entry a kept path turns into. Its icon starts out absent.
pub open spec fn entry_of(p: Seq<char>) -> AppEntryV {
    AppEntryV {
        name: stem_of(file_name_of(p)),
        path: p,
        icon: None,
        category: category_of(p),
    }
}

/// The entries of the kept paths, in traversal order.
pub open spec fn kept_entries(paths: Seq<Seq<char>>) -> Seq<AppEntryV>
    decreases paths.len(),
{
    if paths.len() == 0 {
        Seq::empty()
    } else {
        let rest = kept_entries(paths.drop_last());
        if keeps(paths.last()) {
            rest.push(entry_of(paths.last()))
        } else {
            rest
        }
    }
}

/// Some entry of `s` carries the name `n`.
pub open spec fn has_name(s: Seq<AppEntryV>, n: Seq<char>) -> bool {
    exists|i: int| 0 <= i < s.len() && s[i].name == n
}

/// First-occurrence deduplication by name: an entry stays exactly when no
/// earlier entry carries its name.
pub open spec fn dedup_first(s: Seq<AppEntryV>) -> Seq<AppEntryV>
    decreases s.len(),
{
    if s.len() == 0 {
        Seq::empty()
    } else {
        let prefix = dedup_first(s.drop_last());
        if has_name(prefix, s.last().name) {
            prefix
        } else {
            prefix.push(s.last())
        }
    }
}

/// No two entries share a name.
pub open spec fn unique_names(s: Seq<AppEntryV>) -> bool {
    forall|i: int, j: int| 0 <= i < j < s.len() ==> s[i].name != s[j].name
}

/// Names appear in ascending code-point order.
pub open spec fn sorted_by_name(s: Seq<AppEntryV>) -> bool {
    forall|i: int, j: int| 0 <= i < j < s.len() ==> lex_leq(s[i].name, s[j].name)
}

/// The views of a sequence of entries.
pub open spec fn views(s: Seq<AppEntry>) -> Seq<AppEntryV> {
    s.map_values(|e: AppEntry| e@)
}

/// The views of a sequence of path strings.
pub open spec fn path_views(s: Seq<String>) -> Seq<Seq<char>> {
    s.map_values(|p: String| p@)
}

/// The views of a sequence of root listings.
pub open spec fn root_views(s: Seq<RootListing>) -> Seq<RootListingV> {
    s.map_values(|r: RootListing| r@)
}

/// The paths a scan considers: the files of the present roots, in order.
/// An absent root contributes nothing.
pub open spec fn candidate_paths(roots: Seq<RootListingV>) -> Seq<Seq<char>>
    decreases roots.len(),
{
    if roots.len() == 0 {
        Seq::empty()
    } else {
        candidate_paths(roots.drop_last()) + (if roots.last().present {
            roots.last().files
        } else {
            Seq::empty()
        })
    }
}

/// What a scan over the given roots yields, before sorting: the kept
/// entries with first-occurrence deduplication applied.
pub open spec fn scan_model(roots: Seq<RootListingV>) -> Seq<AppEntryV> {
    dedup_first(kept_entries(candidate_paths(roots)))
}

/// `dir_len` is the only index that sits just after a separator with no
/// separator anywhere behind it.
proof fn lemma_dir_len_unique(p: Seq<char>, i: int)
    requires
        0 <= i <= p.len(),
        i > 0 ==> is_sep(p[i - 1]),
        forall|j: int| i <= j < p.len() ==> !is_sep(p[j]),
    ensures
        dir_len(p) == i,
    decreases p.len(),
{
    if p.len() == 0 {
    } else if is_sep(p[p.len() - 1]) {
        assert(i == p.len());
    } else {
        assert(i < p.len());
        lemma_dir_len_unique(p.drop_last(), i);
    }
}

/// Inserting an element anywhere adds exactly it to the multiset.
proof fn lemma_insert_to_multiset(s: Seq<AppEntryV>, x: AppEntryV, j: int)
    requires
        0 <= j <= s.len(),
    ensures
        s.insert(j, x).to_multiset() =~= s.to_multiset().insert(x),
{
    broadcast use vstd::seq_lib::group_to_multiset_ensures;
    broadcast use vstd::multiset::group_multiset_axioms;

    let t = s.insert(j, x);
    s.insert_ensures(j, x);
    assert(t.remove(j) =~= s);
    t.remove_ensures(j);
    assert(t[j] == x);
    assert(t.remove(j).to_multiset() =~= t.to_multiset().remove(x));
    assert(t.contains(x)) by {
        assert(t[j] == x);
    }
    assert(t.to_multiset().count(x) > 0);
    assert forall|y: AppEntryV|
        t.to_multiset().count(y) == s.to_multiset().insert(x).count(y) by {
        assert(s.to_multiset() == t.to_multiset().remove(x));
        if y == x {
            assert(s.to_multiset().count(x) == t.to_multiset().count(x) - 1);
        } else {
            assert(s.to_multiset().count(y) == t.to_multiset().count(y));
        }
    }
}

/// Inserting an entry whose name is fresh keeps names unique.
proof fn lemma_unique_insert(s: Seq<AppEntryV>, x: AppEntryV, j: int)
    requires
        unique_names(s),
        0 <= j <= s.len(),
        forall|k: int| 0 <= k < s.len() ==> s[k].name != x.name,
    ensures
        unique_names(s.insert(j, x)),
{
    let t = s.insert(j, x);
    s.insert_ensures(j, x);
    assert forall|a: int, b: int| 0 <= a < b < t.len() implies t[a].name != t[b].name by {
        if a < j {
            assert(t[a] == s[a]);
        } else if a == j {
            assert(t[a] == x);
        } else {
            assert(t[a] == s[a - 1]);
        }
        if b < j {
            assert(t[b] == s[b]);
        } else if b == j {
            assert(t[b] == x);
        } else {
            assert(t[b] == s[b - 1]);
        }
    }
}

/// Two sequences with the same multiset carry the same names.
proof fn lemma_has_name_multiset(s: Seq<AppEntryV>, t: Seq<AppEntryV>, n: Seq<char>)
    requires
        s.to_multiset() == t.to_multiset(),
        has_name(s, n),
    ensures
        has_name(t, n),
{
    broadcast use vstd::seq_lib::group_to_multiset_ensures;

    let i = choose|i: int| 0 <= i < s.len() && s[i].name == n;
    let e = s[i];
    assert(s.contains(e));
    assert(s.to_multiset().count(e) > 0);
    assert(t.contains(e));
    let k = choose|k: int| 0 <= k < t.len() && t[k] == e;
    assert(t[k].name == n);
}

/// Splits off the directory part: returns the index just after the last
/// separator of `p`, or `0` when `p` has none.
pub fn split_dir(p: &str) -> (d: usize)
    ensures
        d as int == dir_len(p@),
        d <= p@.len(),
{
    let len = p.unicode_len();
    let mut i: usize = len;
    loop
        invariant
            i <= len,
            len == p@.len(),
            forall|j: int| i <= j < len ==> !is_sep(p@[j]),
        decreases i,
    {
        if i == 0 {
            proof {
                lemma_dir_len_unique(p@, 0);
            }
            return 0;
        }
        let c = p.get_char(i - 1);
        if c == '\\' || c == '/' {
            proof {
                lemma_dir_len_unique(p@, i as int);
            }
            return i;
        }
        i = i - 1;
    }
}

/// Derives the entry a path would contribute, or nothing when the path
/// is filtered out (wrong extension or a noise word in its name).
pub fn parse_entry(p: &String) -> (r: Option<AppEntry>)
    ensures
        keeps(p@) <==> r is Some,
        r is Some ==> r.unwrap()@ == entry_of(p@),
{
    let s = p.as_str();
    let len = s.unicode_len();
    let d = split_dir(s);
    let fname = s.substring_char(d, len);
    proof {
        assert(fname@ =~= file_name_of(p@));
        reveal_strlit(".lnk");
    }
    let flen = fname.unicode_len();
    if flen < 5 {
        return None;
    }
    if !has_suffix(fname, ".lnk") {
        return None;
    }
    let stem = fname.substring_char(0, flen - 4);
    proof {
        assert(stem@ =~= stem_of(file_name_of(p@)));
    }
    if contains_lower(stem, "uninstall") || contains_lower(stem, "readme") || contains_lower(
        stem,
        "help",
    ) || contains_lower(stem, "manual") {
        return None;
    }
    let category = parent_category(s, d);
    let entry = AppEntry {
        name: String::from_str(stem),
        path: p.clone(),
        icon: None,
        category,
    };
    Some(entry)
}

/// The category of a path whose directory part has length `d`: the name
/// of the immediate containing directory, or `"Other"` without one.
fn parent_category(s: &str, d: usize) -> (r: String)
    requires
        d as int == dir_len(s@),
        d <= s@.len(),
    ensures
        r@ == category_of(s@),
{
    proof {
        reveal_strlit("Other");
    }
    if d == 0 {
        return String::from_str("Other");
    }
    let parent = s.substring_char(0, d - 1);
    proof {
        assert(parent@ =~= s@.take(d - 1));
    }
    let plen = parent.unicode_len();
    let pd = split_dir(parent);
    let pname = parent.substring_char(pd, plen);
    proof {
        assert(pname@ =~= file_name_of(s@.take(d - 1)));
        assert(pname@ =~= parent_name_of(s@));
    }
    if pd == plen {
        assert(parent_name_of(s@).len() == 0);
        String::from_str("Other")
    } else {
        assert(parent_name_of(s@).len() > 0);
        String::from_str(pname)
    }
}

/// Is some already-collected entry named `n`?
fn find_name(acc: &Vec<AppEntry>, n: &String) -> (r: bool)
    ensures
        r == has_name(views(acc@), n@),
{
    let mut k: usize = 0;
    while k < acc.len()
        invariant
            k <= acc.len(),
            forall|i: int| 0 <= i < k ==> views(acc@)[i].name != n@,
        decreases acc.len() - k,
    {
        if acc[k].name == *n {
            proof {
                assert(views(acc@)[k as int].name == n@);
            }
            return true;
        }
        k = k + 1;
    }
    false
}

/// The position at which an entry named `n` belongs in the
/// name-sorted `acc`.
fn insert_pos(acc: &Vec<AppEntry>, n: &String) -> (r: usize)
    ensures
        r <= acc.len(),
        forall|k: int| 0 <= k < r ==> lex_lt(views(acc@)[k].name, n@),
        r < acc.len() ==> !lex_lt(views(acc@)[r as int].name, n@),
{
    let mut idx: usize = 0;
    while idx < acc.len()
        invariant
            idx <= acc.len(),
            forall|k: int| 0 <= k < idx ==> lex_lt(views(acc@)[k].name, n@),
        decreases acc.len() - idx,
    {
        if !str_lt(acc[idx].name.as_str(), n.as_str()) {
            return idx;
        }
        proof {
            assert(views(acc@)[idx as int].name == acc@[idx as int].name@);
        }
        idx = idx + 1;
    }
    idx
}

/// Scans a flat list of paths, in traversal order: filters, deduplicates
/// by name keeping the first occurrence, and sorts ascending by name.
pub fn scan_paths(paths: &Vec<String>) -> (r: Vec<AppEntry>)
    ensures
        views(r@).to_multiset() == dedup_first(kept_entries(path_views(paths@))).to_multiset(),
        sorted_by_name(views(r@)),
        unique_names(views(r@)),
{
    let mut acc: Vec<AppEntry> = Vec::new();
    let ghost all = path_views(paths@);
    proof {
        assert(views(acc@) =~= Seq::<AppEntryV>::empty());
        assert(all.take(0) =~= Seq::<Seq<char>>::empty());
        assert(views(acc@).to_multiset() =~= dedup_first(kept_entries(all.take(0))).to_multiset());
    }
    let mut pi: usize = 0;
    while pi < paths.len()
        invariant
            pi <= paths.len(),
            all == path_views(paths@),
            all.len() == paths.len(),
            views(acc@).to_multiset() == dedup_first(kept_entries(all.take(pi as int))).to_multiset(),
            sorted_by_name(views(acc@)),
            unique_names(views(acc@)),
        decreases paths.len() - pi,
    {
        let ghost prefix = all.take(pi as int);
        let ghost next = all.take(pi + 1);
        proof {
            assert(next.drop_last() =~= prefix);
            assert(next.last() == paths@[pi as int]@);
        }
        let p = &paths[pi];
        match parse_entry(p) {
            None => {
                proof {
                    assert(kept_entries(next) == kept_entries(prefix));
                }
            },
            Some(entry) => {
                let ghost e = entry_of(p@);
                proof {
                    assert(kept_entries(next) == kept_entries(prefix).push(e));
                    assert(kept_entries(next).drop_last() =~= kept_entries(prefix));
                    assert(kept_entries(next).last() == e);
                    assert(kept_entries(next).len() > 0);
                }
                if find_name(&acc, &entry.name) {
                    proof {
                        lemma_has_name_multiset(
                            views(acc@),
                            dedup_first(kept_entries(prefix)),
                            e.name,
                        );
                        assert(dedup_first(kept_entries(next)) == dedup_first(kept_entries(prefix)));
                    }
                } else {
                    proof {
                        if has_name(dedup_first(kept_entries(prefix)), e.name) {
                            lemma_has_name_multiset(
                                dedup_first(kept_entries(prefix)),
                                views(acc@),
                                e.name,
                            );
                        }
                        assert(dedup_first(kept_entries(next)) == dedup_first(
                            kept_entries(prefix),
                        ).push(e));
                    }
                    let idx = insert_pos(&acc, &entry.name);
                    let ghost oldviews = views(acc@);
                    acc.insert(idx, entry);
                    proof {
                        assert(views(acc@) =~= oldviews.insert(idx as int, e));
                        lemma_insert_to_multiset(oldviews, e, idx as int);
                        broadcast use vstd::seq_lib::group_to_multiset_ensures;

                        assert(dedup_first(kept_entries(prefix)).push(e).to_multiset()
                            =~= dedup_first(kept_entries(prefix)).to_multiset().insert(e));
                        assert forall|k: int| 0 <= k < oldviews.len() implies oldviews[k].name
                            != e.name by {
                            if oldviews[k].name == e.name {
                                assert(has_name(oldviews, e.name));
                            }
                        }
                        lemma_unique_insert(oldviews, e, idx as int);
                        oldviews.insert_ensures(idx as int, e);
                        let t = oldviews.insert(idx as int, e);
                        // The fresh entry precedes every old entry at or
                        // after its slot.
                        assert forall|k: int| idx <= k < oldviews.len() implies lex_lt(
                            e.name,
                            oldviews[k].name,
                        ) by {
                            lemma_lex_lt_trichotomy(e.name, oldviews[idx as int].name);
                            assert(lex_lt(e.name, oldviews[idx as int].name));
                            if k > idx {
                                assert(lex_leq(oldviews[idx as int].name, oldviews[k].name));
                                if lex_lt(oldviews[idx as int].name, oldviews[k].name) {
                                    lemma_lex_lt_transitive(
                                        e.name,
                                        oldviews[idx as int].name,
                                        oldviews[k].name,
                                    );
                                }
                            }
                        }
                        assert forall|a: int, b: int|
                            0 <= a < b < t.len() implies lex_leq(t[a].name, t[b].name) by {
                            if a < idx {
                                assert(t[a] == oldviews[a]);
                            } else if a == idx {
                                assert(t[a] == e);
                            } else {
                                assert(t[a] == oldviews[a - 1]);
                            }
                            if b < idx {
                                assert(t[b] == oldviews[b]);
                            } else if b == idx {
                                assert(t[b] == e);
                            } else {
                                assert(t[b] == oldviews[b - 1]);
                            }
                            if b == idx {
                                assert(lex_lt(oldviews[a].name, e.name));
                            } else if a == idx {
                                assert(lex_lt(e.name, oldviews[b - 1].name));
                            } else if a < idx && b > idx {
                                if a < b - 1 {
                                    assert(lex_leq(oldviews[a].name, oldviews[b - 1].name));
                                } else {
                                    assert(a == b - 1);
                                }
                            }
                        }
                    }
                }
            },
        }
        pi = pi + 1;
    }
    proof {
        assert(all.take(paths.len() as int) =~= all);
    }
    acc
}

/// Scans the given roots in order: an absent root is skipped, the files
/// of the present roots are filtered, deduplicated by name keeping the
/// first occurrence met in traversal order, and the result is sorted
/// ascending by name.
pub fn scan_apps(roots: &Vec<RootListing>) -> (r: Vec<AppEntry>)
    ensures
        views(r@).to_multiset() == scan_model(root_views(roots@)).to_multiset(),
        sorted_by_name(views(r@)),
        unique_names(views(r@)),
{
    let mut paths: Vec<String> = Vec::new();
    let ghost rv = root_views(roots@);
    proof {
        assert(rv.take(0) =~= Seq::<RootListingV>::empty());
        assert(path_views(paths@) =~= candidate_paths(rv.take(0)));
    }
    let mut ri: usize = 0;
    while ri < roots.len()
        invariant
            ri <= roots.len(),
            rv == root_views(roots@),
            rv.len() == roots.len(),
            path_views(paths@) == candidate_paths(rv.take(ri as int)),
        decreases roots.len() - ri,
    {
        let ghost before = path_views(paths@);
        proof {
            assert(rv.take(ri + 1).drop_last() =~= rv.take(ri as int));
            assert(rv.take(ri + 1).last() == rv[ri as int]);
            assert(rv[ri as int] == roots@[ri as int]@);
        }
        if roots[ri].present {
            let files = &roots[ri].files;
            let mut fi: usize = 0;
            while fi < files.len()
                invariant
                    fi <= files.len(),
                    path_views(paths@) =~= before + files@.map_values(|s: String| s@).take(
                        fi as int,
                    ),
                decreases files.len() - fi,
            {
                let ghost pv = path_views(paths@);
                paths.push(files[fi].clone());
                proof {
                    assert(path_views(paths@) =~= pv.push(files@[fi as int]@));
                    assert(files@.map_values(|s: String| s@).take(fi + 1) =~= files@.map_values(
                        |s: String| s@,
                    ).take(fi as int).push(files@[fi as int]@));
                }
                fi = fi + 1;
            }
            proof {
                assert(files@.map_values(|s: String| s@).take(files.len() as int) =~= files@
                    .map_values(|s: String| s@));
                assert(path_views(paths@) =~= candidate_paths(rv.take(ri + 1)));
            }
        } else {
            proof {
                assert(path_views(paths@) =~= candidate_paths(rv.take(ri + 1)));
            }
        }
        ri = ri + 1;
    }
    proof {
        assert(rv.take(roots.len() as int) =~= rv);
    }
    scan_paths(&paths)
}

/// Removing an absent root does not change which paths a scan considers.
proof fn lemma_candidate_paths_remove_absent(roots: Seq<RootListingV>, i: int)
    requires
        0 <= i < roots.len(),
        !roots[i].present,
    ensures
        candidate_paths(roots) == candidate_paths(roots.remove(i)),
    decreases roots.len(),
{
    if i == roots.len() - 1 {
        assert(roots.remove(i) =~= roots.drop_last());
        assert(candidate_paths(roots) =~= candidate_paths(roots.drop_last()));
    } else {
        lemma_candidate_paths_remove_absent(roots.drop_last(), i);
        let rem = roots.remove(i);
        assert(rem.drop_last() =~= roots.drop_last().remove(i));
        assert(rem.last() == roots.last());
        assert(rem.len() > 0);
        assert(candidate_paths(rem) == candidate_paths(rem.drop_last()) + (if rem.last().present {
            rem.last().files
        } else {
            Seq::empty()
        }));
        assert(candidate_paths(roots) =~= candidate_paths(rem));
    }
}

/// Absent roots contribute nothing: removing a root that is not present
/// on disk leaves the scan's outcome unchanged.
pub proof fn lemma_absent_root_contributes_nothing(roots: Seq<RootListingV>, i: int)
    requires
        0 <= i < roots.len(),
        !roots[i].present,
    ensures
        scan_model(roots) == scan_model(roots.remove(i)),
{
    lemma_candidate_paths_remove_absent(roots, i);
}

} // verus!
