//! Finding files by name.
use vstd::prelude::*;
use crate::operations::{args_of, push_flag, flag, strs, FileInfo, FindOptions};
use crate::operations::files::{file_from, file_info_of, text_or_empty};
use crate::operations::json::{field_str, str_field, Json};
use crate::text::{chars_of, contains, contains_chars, lowercase, to_lowercase};

verus! {

/// Arguments of `rclone lsjson` for `path`, recursive when asked.
pub fn by_name_args(path: &str, options: &FindOptions) -> (r: Vec<String>)
    ensures
        strs(r@) == seq!["lsjson"@, path@] + flag(options.recursive, "-R"@),
{
    let mut r = args_of(&["lsjson", path]);
    assert(strs(r@) =~= seq!["lsjson"@, path@]);
    push_flag(&mut r, options.recursive, "-R");
    r
}

/// Whether an item matches, from its name and path already lowercased:
/// either holds the lowercased pattern `lp`.
pub open spec fn lowered_match(lowered: (Seq<char>, Seq<char>), lp: Seq<char>) -> bool {
    contains(lowered.0, lp) || contains(lowered.1, lp)
}

/// Which items match, from their lowercased names and paths.
pub open spec fn lowered_matches(lowered: Seq<(String, String)>, lp: Seq<char>) -> Seq<bool> {
    lowered.map_values(|p: (String, String)| lowered_match((p.0@, p.1@), lp))
}

/// An item matches when its lowercased name or lowercased path contains
/// the lowercased pattern `lp`.
pub open spec fn item_matches(item: Json, lp: Seq<char>) -> bool {
    lowered_match(
        (
            lowercase(text_or_empty(field_str(item, "Name"@))),
            lowercase(text_or_empty(field_str(item, "Path"@))),
        ),
        lp,
    )
}

/// Which items match the lowercased pattern `lp`.
pub open spec fn matches_of(items: Seq<Json>, lp: Seq<char>) -> Seq<bool> {
    items.map_values(|it: Json| item_matches(it, lp))
}

/// How many items the search looks at, given which items match: it goes
/// through them in order and stops right after the one at which the
/// number of matches reaches `max`, or at the end.
pub open spec fn search_stop(matched: Seq<bool>, max: nat, i: nat, count: nat) -> nat
    decreases matched.len() - i,
{
    if i >= matched.len() {
        matched.len()
    } else {
        let c = count + (if matched[i as int] {
            1nat
        } else {
            0nat
        });
        if c >= max {
            i + 1
        } else {
            search_stop(matched, max, i + 1, c)
        }
    }
}

/// The items marked in `matched`, in order.
pub open spec fn picked(items: Seq<Json>, matched: Seq<bool>) -> Seq<Json>
    decreases items.len(),
{
    if items.len() == 0 {
        Seq::empty()
    } else {
        let rest = picked(items.drop_last(), matched.take(items.len() - 1));
        if matched[items.len() - 1] {
            rest.push(items.last())
        } else {
            rest
        }
    }
}

/// The matching items among those the search looks at, in order.
pub open spec fn found(items: Seq<Json>, matched: Seq<bool>, max: nat) -> Seq<Json> {
    let stop = search_stop(matched, max, 0, 0);
    picked(items.take(stop as int), matched.take(stop as int))
}

/// The matching items of a search for `pattern`, ignoring case.
pub open spec fn hits(items: Seq<Json>, pattern: Seq<char>, max: nat) -> Seq<Json> {
    found(items, matches_of(items, lowercase(pattern)), max)
}

/// The entries among `items` that match, given each item's name and path
/// already lowercased (`lowered`, one pair per item) and the lowercased
/// pattern `lp`, with the search stopped once `max_results` matches are
/// found (see [`search_stop`]).
pub fn collect_hits(
    items: &Vec<Json>,
    lowered: &Vec<(String, String)>,
    lp: &str,
    max_results: usize,
) -> (r: Vec<FileInfo>)
    requires
        lowered.len() == items.len(),
    ensures
        r@.len() == found(items@, lowered_matches(lowered@, lp@), max_results as nat).len(),
        forall|i: int|
            0 <= i < r@.len() ==> file_from(
                #[trigger] r@[i],
                found(items@, lowered_matches(lowered@, lp@), max_results as nat)[i],
            ),
{
    let lpc = chars_of(lp);
    let ghost matched = lowered_matches(lowered@, lp@);
    let ghost max = max_results as nat;
    let mut results: Vec<FileInfo> = Vec::new();
    let mut i: usize = 0;
    let ghost mut stop: nat = items@.len();
    while i < items.len()
        invariant_except_break
            i <= items.len(),
            lowered.len() == items.len(),
            lpc@ == lp@,
            matched == lowered_matches(lowered@, lp@),
            max == max_results,
            stop == items@.len(),
            search_stop(matched, max, 0, 0) == search_stop(matched, max, i as nat, results@.len()),
            results@.len() == picked(items@.take(i as int), matched.take(i as int)).len(),
            forall|k: int|
                0 <= k < results@.len() ==> file_from(
                    #[trigger] results@[k],
                    picked(items@.take(i as int), matched.take(i as int))[k],
                ),
        ensures
            stop == search_stop(matched, max, 0, 0),
            stop <= items@.len(),
            results@.len() == picked(items@.take(stop as int), matched.take(stop as int)).len(),
            forall|k: int|
                0 <= k < results@.len() ==> file_from(
                    #[trigger] results@[k],
                    picked(items@.take(stop as int), matched.take(stop as int))[k],
                ),
        decreases items.len() - i,
    {
        proof {
            assert(items@.take(i + 1).drop_last() =~= items@.take(i as int));
            assert(matched.take(i + 1).take(i as int) =~= matched.take(i as int));
            assert(items@.take(i + 1).last() == items@[i as int]);
        }
        let hit = contains_chars(&chars_of(lowered[i].0.as_str()), &lpc) || contains_chars(
            &chars_of(lowered[i].1.as_str()),
            &lpc,
        );
        assert(hit == matched[i as int]);
        let ghost before = results@;
        if hit {
            results.push(file_info_of(&items[i]));
            assert forall|k: int| 0 <= k < results@.len() implies file_from(
                #[trigger] results@[k],
                picked(items@.take(i + 1), matched.take(i + 1))[k],
            ) by {
                if k < before.len() {
                    assert(results@[k] == before[k]);
                }
            }
        }
        if results.len() >= max_results {
            proof {
                stop = (i + 1) as nat;
            }
            break;
        }
        i += 1;
    }
    proof {
        if i == items.len() {
            assert(items@.take(i as int) =~= items@);
            assert(matched.take(i as int) =~= matched);
        }
    }
    results
}

/// The entries among the items of an `lsjson` listing (the answer to
/// [`by_name_args`]) whose name or path contains `pattern`, ignoring case,
/// with the search stopped once `max_results` matches are found (see
/// [`search_stop`]).
pub fn by_name(items: &Vec<Json>, pattern: &str, options: &FindOptions) -> (r: Vec<FileInfo>)
    ensures
        r@.len() == hits(items@, pattern@, options.max_results as nat).len(),
        forall|i: int|
            0 <= i < r@.len() ==> file_from(
                #[trigger] r@[i],
                hits(items@, pattern@, options.max_results as nat)[i],
            ),
{
    let lp = to_lowercase(pattern);
    let mut lowered: Vec<(String, String)> = Vec::new();
    let mut i: usize = 0;
    while i < items.len()
        invariant
            i <= items.len(),
            lowered@.len() == i,
            forall|k: int|
                0 <= k < i ==> (#[trigger] lowered@[k]).0@ == lowercase(
                    text_or_empty(field_str(items@[k], "Name"@)),
                ) && lowered@[k].1@ == lowercase(text_or_empty(field_str(items@[k], "Path"@))),
        decreases items.len() - i,
    {
        let name = match str_field(&items[i], "Name") {
            Some(s) => s,
            None => String::new(),
        };
        let path = match str_field(&items[i], "Path") {
            Some(s) => s,
            None => String::new(),
        };
        lowered.push((to_lowercase(name.as_str()), to_lowercase(path.as_str())));
        i += 1;
    }
    assert(lowered_matches(lowered@, lp@) =~= matches_of(items@, lowercase(pattern@)));
    collect_hits(items, &lowered, lp.as_str(), options.max_results)
}

} // verus!

verus! {

// ---------------------------------------------------------------------------
// Laws of the search

/// The name of an item, or the empty text.
pub open spec fn item_name(item: Json) -> Seq<char> {
    text_or_empty(field_str(item, "Name"@))
}

/// The path of an item, or the empty text.
pub open spec fn item_path(item: Json) -> Seq<char> {
    text_or_empty(field_str(item, "Path"@))
}

/// Matching ignores case in both fields: two items whose names have the
/// same lowercase form, and whose paths do too, match or fail alike.
pub proof fn law_match_ignores_case(a: Json, b: Json, lp: Seq<char>)
    requires
        lowercase(item_name(a)) == lowercase(item_name(b)),
        lowercase(item_path(a)) == lowercase(item_path(b)),
    ensures
        item_matches(a, lp) == item_matches(b, lp),
{
}

/// Below the limit the search never stops early.
proof fn lemma_no_early_stop(matched: Seq<bool>, max: nat, i: nat, count: nat)
    requires
        count <= i,
        max > matched.len(),
    ensures
        search_stop(matched, max, i, count) == matched.len(),
    decreases matched.len() - i,
{
    if i < matched.len() {
        let c = count + (if matched[i as int] {
            1nat
        } else {
            0nat
        });
        lemma_no_early_stop(matched, max, i + 1, c);
    }
}

/// The items kept by a search whose limit is not reached are those kept
/// by a filter with the same test.
proof fn lemma_picked_is_filter(items: Seq<Json>, p: spec_fn(Json) -> bool)
    ensures
        picked(items, items.map_values(p)) == items.filter(p),
    decreases items.len(),
{
    reveal(Seq::filter);
    if items.len() > 0 {
        let rest = items.drop_last();
        let m = items.map_values(p);
        assert(m.take(items.len() - 1) =~= rest.map_values(p));
        lemma_picked_is_filter(rest, p);
        assert(m[items.len() - 1] == p(items[items.len() - 1]));
        assert(items.last() == items[items.len() - 1]);
        assert(items.drop_last() == rest);
        assert(picked(rest, m.take(items.len() - 1)) == rest.filter(p));
        if p(items.last()) {
            assert(items.filter(p) == rest.filter(p).push(items.last()));
            assert(picked(items, m) == picked(rest, m.take(items.len() - 1)).push(items.last()));
        } else {
            assert(items.filter(p) == rest.filter(p));
            assert(picked(items, m) == picked(rest, m.take(items.len() - 1)));
        }
    } else {
        assert(items.filter(p) =~= Seq::<Json>::empty());
        assert(picked(items, items.map_values(p)) =~= Seq::<Json>::empty());
    }
}

/// When the limit exceeds the number of items, the search finds exactly the
/// items, in order, whose name or path, once lowercased, contains the
/// lowercased pattern.
pub proof fn law_search_without_limit(items: Seq<Json>, pattern: Seq<char>, max: nat)
    requires
        max > items.len(),
    ensures
        hits(items, pattern, max) == items.filter(
            |it: Json|
                contains(lowercase(item_name(it)), lowercase(pattern)) || contains(
                    lowercase(item_path(it)),
                    lowercase(pattern),
                ),
        ),
{
    let lp = lowercase(pattern);
    let m = matches_of(items, lp);
    let p = |it: Json|
        contains(lowercase(item_name(it)), lowercase(pattern)) || contains(
            lowercase(item_path(it)),
            lowercase(pattern),
        );
    lemma_no_early_stop(m, max, 0, 0);
    assert(items.take(items.len() as int) =~= items);
    assert(m.take(items.len() as int) =~= m);
    assert(m =~= items.map_values(p));
    lemma_picked_is_filter(items, p);
}

} // verus!

verus! {

/// The test the search applies to an item: its name or its path, once
/// lowercased, holds the lowercased pattern.
pub open spec fn name_or_path_holds(pattern: Seq<char>) -> spec_fn(Json) -> bool {
    |it: Json|
        contains(lowercase(item_name(it)), lowercase(pattern)) || contains(
            lowercase(item_path(it)),
            lowercase(pattern),
        )
}

/// From position `i` with `count` matches so far, below the limit, the
/// search keeps the first `max` of all matches (or all, when fewer).
proof fn lemma_stop_keeps_first(items: Seq<Json>, p: spec_fn(Json) -> bool, max: nat, i: nat, count: nat)
    requires
        i <= items.len(),
        count == items.take(i as int).filter(p).len(),
        count < max,
    ensures
        ({
            let s = search_stop(items.map_values(p), max, i, count);
            let all = items.filter(p);
            &&& s <= items.len()
            &&& items.take(s as int).filter(p) == all.take(
                if all.len() < max {
                    all.len() as int
                } else {
                    max as int
                },
            )
        }),
    decreases items.len() - i,
{
    reveal(Seq::filter);
    let m = items.map_values(p);
    let all = items.filter(p);
    if i >= items.len() {
        assert(items.take(i as int) =~= items);
        assert(all.take(all.len() as int) =~= all);
    } else {
        let c = count + (if m[i as int] {
            1nat
        } else {
            0nat
        });
        let next = items.take(i + 1int);
        assert(next.drop_last() =~= items.take(i as int));
        assert(next.last() == items[i as int]);
        assert(c == next.filter(p).len());
        if c >= max {
            assert(items =~= next + items.skip(i + 1int));
            Seq::filter_distributes_over_add(next, items.skip(i + 1int), p);
            assert(all.take(max as int) =~= next.filter(p));
            assert(all.len() >= max);
        } else {
            lemma_stop_keeps_first(items, p, max, i + 1, c);
        }
    }
}

/// The search keeps, in order, the first `max` of the items whose name or
/// path, once lowercased, holds the lowercased pattern (all of them when
/// there are fewer); with a limit of zero it looks at the first item only.
pub proof fn law_search_keeps_first_matches(items: Seq<Json>, pattern: Seq<char>, max: nat)
    ensures
        ({
            let all = items.filter(name_or_path_holds(pattern));
            hits(items, pattern, max) == if max == 0 {
                items.take(if items.len() == 0 {
                    0int
                } else {
                    1int
                }).filter(name_or_path_holds(pattern))
            } else {
                all.take(
                    if all.len() < max {
                        all.len() as int
                    } else {
                        max as int
                    },
                )
            }
        }),
{
    reveal(Seq::filter);
    let p = name_or_path_holds(pattern);
    let m = matches_of(items, lowercase(pattern));
    assert(m =~= items.map_values(p));
    let s = search_stop(m, max, 0, 0);
    if max == 0 {
        if items.len() > 0 {
            assert(s == 1);
        }
    } else {
        assert(items.take(0).filter(p) =~= Seq::<Json>::empty());
        lemma_stop_keeps_first(items, p, max, 0, 0);
    }
    assert(m.take(s as int) =~= items.take(s as int).map_values(p));
    lemma_picked_is_filter(items.take(s as int), p);
}

} // verus!
