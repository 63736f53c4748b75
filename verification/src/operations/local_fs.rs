//! Ordering of a local directory listing.
//!
//! Reading the directory is the caller's work; what is decided here is where
//! a listing starts and in which order its entries are shown: folders
//! before files, each group by name, entries that compare equal keeping the
//! order in which the directory gave them.
use vstd::prelude::*;
use crate::operations::FileInfo;
use crate::text::chars_of;

verus! {

/// The directory that a listing of `path` reads: `path` itself, or the
/// root of the file system (`C:\` on Windows, `/` elsewhere) when `path` is
/// empty.
pub open spec fn listing_root_spec(path: Seq<char>, windows: bool) -> Seq<char> {
    if path.len() == 0 {
        if windows {
            seq!['C', ':', '\\']
        } else {
            seq!['/']
        }
    } else {
        path
    }
}

/// The directory that a listing of `path` reads.
pub fn listing_root(path: &str, windows: bool) -> (r: String)
    ensures
        r@ == listing_root_spec(path@, windows),
{
    let v = chars_of(path);
    if v.len() == 0 {
        let mut r = String::new();
        if windows {
            r.push('C');
            r.push(':');
            r.push('\\');
        } else {
            r.push('/');
        }
        r
    } else {
        path.to_owned()
    }
}

/// `a` comes strictly before `b` in the order of `str`: the first
/// differing character decides, by code point, and a proper prefix comes
/// first. (UTF-8 keeps the order of code points, so this is the byte order
/// in which `String` values compare.)
pub open spec fn name_lt(a: Seq<char>, b: Seq<char>) -> bool
    decreases a.len(),
{
    if b.len() == 0 {
        false
    } else if a.len() == 0 {
        true
    } else if a[0] != b[0] {
        (a[0] as int) < (b[0] as int)
    } else {
        name_lt(a.drop_first(), b.drop_first())
    }
}

/// The order of names is transitive.
pub proof fn lemma_name_lt_transitive(a: Seq<char>, b: Seq<char>, c: Seq<char>)
    requires
        name_lt(a, b),
        name_lt(b, c),
    ensures
        name_lt(a, c),
    decreases a.len(),
{
    if a.len() > 0 && a[0] == b[0] && b[0] == c[0] {
        lemma_name_lt_transitive(a.drop_first(), b.drop_first(), c.drop_first());
    }
}

/// The order of names is irreflexive.
pub proof fn lemma_name_lt_irreflexive(a: Seq<char>)
    ensures
        !name_lt(a, a),
    decreases a.len(),
{
    if a.len() > 0 {
        lemma_name_lt_irreflexive(a.drop_first());
    }
}

/// Two different names are ordered one way or the other.
pub proof fn lemma_name_lt_total(a: Seq<char>, b: Seq<char>)
    requires
        a != b,
    ensures
        name_lt(a, b) || name_lt(b, a),
    decreases a.len(),
{
    if a.len() > 0 && b.len() > 0 && a[0] == b[0] {
        if a.drop_first() == b.drop_first() {
            assert(a =~= seq![a[0]] + a.drop_first());
            assert(b =~= seq![b[0]] + b.drop_first());
        }
        lemma_name_lt_total(a.drop_first(), b.drop_first());
    } else if a.len() > 0 && b.len() > 0 {
        assert((a[0] as int) != (b[0] as int));
    } else if a.len() == 0 && b.len() == 0 {
        assert(a =~= b);
    }
}

/// Entry `a` is listed before entry `b`: a folder before a file, otherwise
/// the smaller name first.
pub open spec fn entry_before(a: FileInfo, b: FileInfo) -> bool {
    (a.is_dir && !b.is_dir) || (a.is_dir == b.is_dir && name_lt(a.name@, b.name@))
}

/// Two entries that the listing order does not tell apart.
pub open spec fn same_key(a: FileInfo, b: FileInfo) -> bool {
    a.is_dir == b.is_dir && a.name@ == b.name@
}

/// No entry of `s` is listed before one that precedes it.
pub open spec fn listing_ordered(s: Seq<FileInfo>) -> bool {
    forall|i: int, j: int| 0 <= i < j < s.len() ==> !entry_before(#[trigger] s[j], #[trigger] s[i])
}

/// `p` says where each entry of `r` was in `s`: it is a one-to-one map of
/// the positions of `r` onto those of `s`.
pub open spec fn is_arrangement(r: Seq<FileInfo>, s: Seq<FileInfo>, p: Seq<int>) -> bool {
    &&& r.len() == s.len()
    &&& p.len() == r.len()
    &&& forall|i: int| 0 <= i < p.len() ==> 0 <= #[trigger] p[i] < s.len()
    &&& forall|i: int| 0 <= i < p.len() ==> r[i] == s[#[trigger] p[i]]
    &&& forall|i: int, j: int| 0 <= i < j < p.len() ==> #[trigger] p[i] != #[trigger] p[j]
}

/// `r` is `s` in listing order, the sort being stable: `r` rearranges `s`
/// (by `p`), is ordered, and entries with the same key keep their order.
pub open spec fn stable_listing(r: Seq<FileInfo>, s: Seq<FileInfo>, p: Seq<int>) -> bool {
    &&& is_arrangement(r, s, p)
    &&& listing_ordered(r)
    &&& forall|i: int, j: int|
        0 <= i < j < r.len() && same_key(#[trigger] r[i], #[trigger] r[j]) ==> p[i] < p[j]
}

/// Executable `name_lt`.
fn name_before(a: &Vec<char>, b: &Vec<char>) -> (r: bool)
    ensures
        r == name_lt(a@, b@),
{
    let mut i: usize = 0;
    assert(a@.skip(0) =~= a@ && b@.skip(0) =~= b@);
    while i < a.len() && i < b.len() && a[i] == b[i]
        invariant
            i <= a.len(),
            i <= b.len(),
            name_lt(a@, b@) == name_lt(a@.skip(i as int), b@.skip(i as int)),
        decreases a.len() - i,
    {
        proof {
            let sa = a@.skip(i as int);
            let sb = b@.skip(i as int);
            assert(sa.drop_first() =~= a@.skip(i + 1));
            assert(sb.drop_first() =~= b@.skip(i + 1));
        }
        i += 1;
    }
    if i == b.len() {
        false
    } else if i == a.len() {
        true
    } else {
        a[i] < b[i]
    }
}

/// Executable `entry_before`, on the entry `x` whose name is `xn` and the
/// entry `y` whose name is `yn`.
fn entry_is_before(x_dir: bool, xn: &Vec<char>, y_dir: bool, yn: &Vec<char>) -> (r: bool)
    ensures
        r == ((x_dir && !y_dir) || (x_dir == y_dir && name_lt(xn@, yn@))),
{
    if x_dir != y_dir {
        x_dir
    } else {
        name_before(xn, yn)
    }
}

/// The entries of a directory in the order in which they are shown:
/// folders first, then files, each group sorted by name; entries with the
/// same kind and name keep the order in which they were given.
pub fn order_listing(entries: Vec<FileInfo>) -> (r: Vec<FileInfo>)
    ensures
        exists|p: Seq<int>| stable_listing(r@, entries@, p),
{
    let ghost s = entries@;
    let mut rest = entries;
    let mut out: Vec<FileInfo> = Vec::new();
    let ghost mut p: Seq<int> = Seq::empty();
    let n = rest.len();
    let mut k: usize = 0;
    while k < n
        invariant
            n == s.len(),
            k <= n,
            rest@ == s.skip(k as int),
            out@.len() == k,
            p.len() == k,
            forall|i: int| 0 <= i < k ==> 0 <= #[trigger] p[i] < k,
            forall|i: int| 0 <= i < k ==> out@[i] == s[#[trigger] p[i]],
            forall|i: int, j: int| 0 <= i < j < k ==> #[trigger] p[i] != #[trigger] p[j],
            listing_ordered(out@),
            forall|i: int, j: int|
                0 <= i < j < k && same_key(#[trigger] out@[i], #[trigger] out@[j]) ==> p[i] < p[j],
        decreases n - k,
    {
        let x = rest.remove(0);
        assert(x == s[k as int]);
        let ghost gx = x;
        let xn = chars_of(x.name.as_str());
        let mut pos: usize = 0;
        let mut found = false;
        while pos < out.len() && !found
            invariant
                pos <= out@.len(),
                out@.len() == k,
                xn@ == x.name@,
                found ==> pos < out@.len() && entry_before(x, out@[pos as int]),
                forall|i: int| 0 <= i < pos ==> !entry_before(x, #[trigger] out@[i]),
            decreases out@.len() - pos + (if found { 0int } else { 1int }),
        {
            let yn = chars_of(out[pos].name.as_str());
            if entry_is_before(x.is_dir, &xn, out[pos].is_dir, &yn) {
                found = true;
            } else {
                pos += 1;
            }
        }
        proof {
            assert forall|j: int| pos <= j < k implies entry_before(x, #[trigger] out@[j]) by {
                if j > pos {
                    // out[pos] is not listed after out[j], and x is before out[pos].
                    let y = out@[pos as int];
                    let z = out@[j];
                    assert(!entry_before(z, y));
                    if x.is_dir == z.is_dir && x.name@ != z.name@ {
                        lemma_name_lt_total(x.name@, z.name@);
                        if name_lt(z.name@, x.name@) && y.is_dir == z.is_dir {
                            lemma_name_lt_transitive(z.name@, x.name@, y.name@);
                        }
                    }
                }
            }
        }
        let ghost old_out = out@;
        let ghost old_p = p;
        out.insert(pos, x);
        proof {
            let x = gx;
            p = old_p.insert(pos as int, k as int);
            assert(out@ =~= old_out.insert(pos as int, x));
            assert forall|i: int, j: int| 0 <= i < j < out@.len() implies !entry_before(
                #[trigger] out@[j],
                #[trigger] out@[i],
            ) by {
                if i < pos && j == pos {
                } else if i == pos && j > pos {
                    let z = out@[j];
                    assert(z == old_out[j - 1]);
                    assert(entry_before(x, z));
                    if entry_before(z, x) {
                        if x.is_dir == z.is_dir {
                            lemma_name_lt_transitive(x.name@, z.name@, x.name@);
                            lemma_name_lt_irreflexive(x.name@);
                        }
                    }
                } else if i < pos && j > pos {
                    assert(out@[i] == old_out[i]);
                    assert(out@[j] == old_out[j - 1]);
                } else if i > pos {
                    assert(out@[i] == old_out[i - 1]);
                    assert(out@[j] == old_out[j - 1]);
                } else {
                    assert(out@[i] == old_out[i]);
                    assert(out@[j] == old_out[j]);
                }
            }
            assert forall|i: int| 0 <= i < k + 1 implies 0 <= #[trigger] p[i] < k + 1 by {
                if i < pos {
                    assert(p[i] == old_p[i]);
                } else if i > pos {
                    assert(p[i] == old_p[i - 1]);
                }
            }
            assert forall|i: int| 0 <= i < k + 1 implies out@[i] == s[#[trigger] p[i]] by {
                if i < pos {
                    assert(p[i] == old_p[i]);
                } else if i > pos {
                    assert(p[i] == old_p[i - 1]);
                }
            }
            assert forall|i: int, j: int| 0 <= i < j < k + 1 implies #[trigger] p[i]
                != #[trigger] p[j] by {
                if i < pos && j < pos {
                    assert(p[i] == old_p[i] && p[j] == old_p[j]);
                } else if i < pos && j == pos {
                    assert(p[i] == old_p[i]);
                } else if i < pos && j > pos {
                    assert(p[i] == old_p[i] && p[j] == old_p[j - 1]);
                } else if i == pos {
                    assert(p[j] == old_p[j - 1]);
                } else {
                    assert(p[i] == old_p[i - 1] && p[j] == old_p[j - 1]);
                }
            }
            assert forall|i: int, j: int|
                0 <= i < j < k + 1 && same_key(
                    #[trigger] out@[i],
                    #[trigger] out@[j],
                ) implies p[i] < p[j] by {
                if i < pos && j < pos {
                    assert(p[i] == old_p[i] && p[j] == old_p[j]);
                    assert(out@[i] == old_out[i] && out@[j] == old_out[j]);
                } else if i < pos && j == pos {
                    assert(p[i] == old_p[i]);
                } else if i < pos && j > pos {
                    assert(p[i] == old_p[i] && p[j] == old_p[j - 1]);
                    assert(out@[i] == old_out[i] && out@[j] == old_out[j - 1]);
                } else if i == pos {
                    // x shares its key with an entry after it, which x is before.
                    let z = out@[j];
                    assert(z == old_out[j - 1]);
                    assert(entry_before(x, z));
                    lemma_name_lt_irreflexive(x.name@);
                } else {
                    assert(p[i] == old_p[i - 1] && p[j] == old_p[j - 1]);
                    assert(out@[i] == old_out[i - 1] && out@[j] == old_out[j - 1]);
                }
            }
        }
        k += 1;
        assert(rest@ =~= s.skip(k as int));
    }
    proof {
        assert(is_arrangement(out@, s, p));
        assert(stable_listing(out@, s, p));
    }
    out
}

/// Two entries neither of which is listed before the other share their
/// key.
proof fn lemma_unordered_same_key(a: FileInfo, b: FileInfo)
    requires
        !entry_before(a, b),
        !entry_before(b, a),
    ensures
        same_key(a, b),
{
    if a.is_dir == b.is_dir && a.name@ != b.name@ {
        lemma_name_lt_total(a.name@, b.name@);
    }
}

/// A strictly increasing sequence of positions within `0..n`, as long as
/// `0..n`, never falls below its index.
proof fn lemma_increasing_at_least(p: Seq<int>, i: int)
    requires
        0 <= i < p.len(),
        forall|k: int| 0 <= k < p.len() ==> 0 <= #[trigger] p[k],
        forall|k: int, l: int| 0 <= k < l < p.len() ==> #[trigger] p[k] < #[trigger] p[l],
    ensures
        i <= p[i],
    decreases i,
{
    if i > 0 {
        lemma_increasing_at_least(p, i - 1);
        assert(p[i - 1] < p[i]);
    }
}

/// ... and never rises above its index.
proof fn lemma_increasing_at_most(p: Seq<int>, i: int)
    requires
        0 <= i < p.len(),
        forall|k: int| 0 <= k < p.len() ==> #[trigger] p[k] < p.len(),
        forall|k: int, l: int| 0 <= k < l < p.len() ==> #[trigger] p[k] < #[trigger] p[l],
    ensures
        p[i] <= i,
    decreases p.len() - i,
{
    if i + 1 < p.len() {
        lemma_increasing_at_most(p, i + 1);
        assert(p[i] < p[i + 1]);
    }
}

/// Putting a listing that is already in order into order changes nothing:
/// the stable listing order of an ordered listing is the listing itself.
pub proof fn law_ordered_listing_unchanged(r: Seq<FileInfo>, s: Seq<FileInfo>, p: Seq<int>)
    requires
        stable_listing(r, s, p),
        listing_ordered(s),
    ensures
        r == s,
{
    assert forall|i: int, j: int| 0 <= i < j < p.len() implies #[trigger] p[i] < #[trigger] p[j] by {
        if p[j] < p[i] {
            let a = r[i];
            let b = r[j];
            assert(a == s[p[i]]);
            assert(b == s[p[j]]);
            assert(!entry_before(r[j], r[i]));
            assert(!entry_before(s[p[i]], s[p[j]]));
            lemma_unordered_same_key(a, b);
            assert(same_key(r[i], r[j]));
        }
    }
    assert forall|i: int| 0 <= i < p.len() implies p[i] == i by {
        lemma_increasing_at_least(p, i);
        lemma_increasing_at_most(p, i);
    }
    assert forall|i: int| 0 <= i < r.len() implies r[i] == s[i] by {
        assert(r[i] == s[p[i]]);
    }
    assert(r =~= s);
}

} // verus!
