//! Tracker set reconciliation: pseudo-tracker filtering, normalization and
//! order-preserving merge of announce URL lists.
use vstd::prelude::*;

verus! {

/// A synthetic announce entry such as `** [DHT] **`: it starts with `** [`
/// and ends with `] **`.
pub open spec fn is_pseudo(s: Seq<char>) -> bool {
    &&& s.len() >= 4
    &&& s.subrange(0, 4) == seq!['*', '*', ' ', '[']
    &&& s.subrange(s.len() - 4, s.len() as int) == seq![']', ' ', '*', '*']
}

/// Adds `x` to `acc` unless it is a pseudo entry or already present.
pub open spec fn absorb_one(acc: Seq<Seq<char>>, x: Seq<char>) -> Seq<Seq<char>> {
    if is_pseudo(x) || acc.contains(x) {
        acc
    } else {
        acc.push(x)
    }
}

/// Folds `s` into `acc` left to right, keeping the first occurrence of each
/// real URL.
pub open spec fn absorb(acc: Seq<Seq<char>>, s: Seq<Seq<char>>) -> Seq<Seq<char>>
    decreases s.len(),
{
    if s.len() == 0 {
        acc
    } else {
        absorb_one(absorb(acc, s.drop_last()), s.last())
    }
}

/// The merged tracker list: `a` then `b`, first occurrences kept, pseudo
/// entries dropped.
pub open spec fn merged(a: Seq<Seq<char>>, b: Seq<Seq<char>>) -> Seq<Seq<char>> {
    absorb(Seq::empty(), a + b)
}

/// A list with no pseudo entry and no repeated URL.
pub open spec fn is_clean(s: Seq<Seq<char>>) -> bool {
    &&& s.no_duplicates()
    &&& forall|i: int| 0 <= i < s.len() ==> !is_pseudo(#[trigger] s[i])
}

/// Returns whether `url` is a pseudo-tracker marker (`** [NAME] **`).
pub fn is_pseudo_tracker(url: &String) -> (r: bool)
    ensures
        r == is_pseudo(url@),
{
    let s = url.as_str();
    let n = s.unicode_len();
    if n < 4 {
        return false;
    }
    let head = s.get_char(0) == '*' && s.get_char(1) == '*' && s.get_char(2) == ' '
        && s.get_char(3) == '[';
    let tail = s.get_char(n - 4) == ']' && s.get_char(n - 3) == ' ' && s.get_char(n - 2) == '*'
        && s.get_char(n - 1) == '*';
    proof {
        let v = url@;
        if head {
            assert(v.subrange(0, 4) =~= seq!['*', '*', ' ', '[']);
        } else {
            assert(v.subrange(0, 4) != seq!['*', '*', ' ', '[']) by {
                if v.subrange(0, 4) == seq!['*', '*', ' ', '['] {
                    assert(v.subrange(0, 4)[0] == v[0]);
                    assert(v.subrange(0, 4)[1] == v[1]);
                    assert(v.subrange(0, 4)[2] == v[2]);
                    assert(v.subrange(0, 4)[3] == v[3]);
                }
            }
        }
        let m = v.len() as int;
        if tail {
            assert(v.subrange(m - 4, m) =~= seq![']', ' ', '*', '*']);
        } else {
            assert(v.subrange(m - 4, m) != seq![']', ' ', '*', '*']) by {
                if v.subrange(m - 4, m) == seq![']', ' ', '*', '*'] {
                    assert(v.subrange(m - 4, m)[0] == v[m - 4]);
                    assert(v.subrange(m - 4, m)[1] == v[m - 3]);
                    assert(v.subrange(m - 4, m)[2] == v[m - 2]);
                    assert(v.subrange(m - 4, m)[3] == v[m - 1]);
                }
            }
        }
    }
    head && tail
}

/// Returns whether `urls` holds `url`.
pub fn contains_url(urls: &Vec<String>, url: &String) -> (r: bool)
    ensures
        r == urls.deep_view().contains(url@),
{
    let mut i: usize = 0;
    while i < urls.len()
        invariant
            i <= urls.len(),
            forall|k: int| 0 <= k < i ==> urls.deep_view()[k] != url@,
        decreases urls.len() - i,
    {
        if urls[i] == *url {
            assert(urls.deep_view()[i as int] == url@);
            return true;
        }
        i += 1;
    }
    proof {
        if urls.deep_view().contains(url@) {
            let k = choose|k: int| 0 <= k < urls.deep_view().len() && urls.deep_view()[k] == url@;
            assert(urls.deep_view()[k] != url@);
        }
    }
    false
}

/// Appends every entry of `src` to `out` that is neither a pseudo entry nor
/// already in `out`.
fn absorb_into(out: &mut Vec<String>, src: &Vec<String>)
    ensures
        final(out).deep_view() == absorb(old(out).deep_view(), src.deep_view()),
{
    let ghost start = out.deep_view();
    let mut i: usize = 0;
    while i < src.len()
        invariant
            i <= src.len(),
            out.deep_view() == absorb(start, src.deep_view().take(i as int)),
        decreases src.len() - i,
    {
        let url = &src[i];
        let skip = is_pseudo_tracker(url) || contains_url(out, url);
        proof {
            let t = src.deep_view().take(i as int + 1);
            assert(t.drop_last() =~= src.deep_view().take(i as int));
            assert(t.last() == url@);
        }
        if !skip {
            out.push(url.clone());
            assert(out.deep_view() =~= absorb(start, src.deep_view().take(i as int + 1)));
        }
        i += 1;
    }
    assert(src.deep_view().take(src.len() as int) =~= src.deep_view());
}

/// Merges the client's live tracker list with a candidate's list: `existing`
/// first, then `candidate`, each URL kept at its first occurrence, pseudo
/// entries dropped.
pub fn merge(existing: &Vec<String>, candidate: &Vec<String>) -> (r: Vec<String>)
    ensures
        r.deep_view() == merged(existing.deep_view(), candidate.deep_view()),
        is_clean(r.deep_view()),
        forall|x: Seq<char>|
            #[trigger] r.deep_view().contains(x) <==> (!is_pseudo(x) && (
            existing.deep_view().contains(x) || candidate.deep_view().contains(x))),
{
    let mut out: Vec<String> = Vec::new();
    assert(out.deep_view() =~= Seq::<Seq<char>>::empty());
    absorb_into(&mut out, existing);
    absorb_into(&mut out, candidate);
    proof {
        lemma_absorb_concat(Seq::empty(), existing.deep_view(), candidate.deep_view());
        lemma_merged_shape(existing.deep_view(), candidate.deep_view());
    }
    out
}

/// Folding a concatenation is folding its parts in turn.
pub proof fn lemma_absorb_concat(acc: Seq<Seq<char>>, t: Seq<Seq<char>>, u: Seq<Seq<char>>)
    ensures
        absorb(acc, t + u) == absorb(absorb(acc, t), u),
    decreases u.len(),
{
    if u.len() == 0 {
        assert(t + u =~= t);
    } else {
        assert((t + u).drop_last() =~= t + u.drop_last());
        assert((t + u).last() == u.last());
        lemma_absorb_concat(acc, t, u.drop_last());
    }
}

/// Folding into a clean list keeps it clean, keeps it as a prefix, and adds
/// exactly the real URLs of `s`.
pub proof fn lemma_absorb_shape(acc: Seq<Seq<char>>, s: Seq<Seq<char>>)
    requires
        is_clean(acc),
    ensures
        is_clean(absorb(acc, s)),
        absorb(acc, s).len() >= acc.len(),
        absorb(acc, s).subrange(0, acc.len() as int) == acc,
        forall|x: Seq<char>|
            #[trigger] absorb(acc, s).contains(x) <==> (acc.contains(x) || (!is_pseudo(x)
                && s.contains(x))),
    decreases s.len(),
{
    if s.len() > 0 {
        let p = absorb(acc, s.drop_last());
        lemma_absorb_shape(acc, s.drop_last());
        let x = s.last();
        if !(is_pseudo(x) || p.contains(x)) {
            let q = p.push(x);
            assert forall|i: int, j: int| 0 <= i < q.len() && 0 <= j < q.len() && i != j implies q[i]
                != q[j] by {
                if i == q.len() - 1 {
                    assert(p.contains(q[j]) || j == q.len() - 1);
                } else if j == q.len() - 1 {
                    assert(p.contains(q[i]));
                }
            }
            assert(q.subrange(0, acc.len() as int) =~= p.subrange(0, acc.len() as int));
        }
        assert forall|y: Seq<char>| #[trigger] absorb(acc, s).contains(y) <==> (acc.contains(y) || (
        !is_pseudo(y) && s.contains(y))) by {
            assert(p.contains(y) <==> (acc.contains(y) || (!is_pseudo(y) && s.drop_last().contains(
                y))));
            assert(s.contains(y) <==> (s.drop_last().contains(y) || y == x)) by {
                if s.contains(y) && y != x {
                    let k = choose|k: int| 0 <= k < s.len() && s[k] == y;
                    assert(k != s.len() - 1);
                    assert(s.drop_last()[k] == y);
                }
                if s.drop_last().contains(y) {
                    let k = choose|k: int| 0 <= k < s.drop_last().len() && s.drop_last()[k] == y;
                    assert(s[k] == y);
                }
                if y == x {
                    assert(s[s.len() - 1] == y);
                }
            }
            if !(is_pseudo(x) || p.contains(x)) {
                let q = p.push(x);
                assert(q.contains(y) <==> (p.contains(y) || y == x)) by {
                    if y == x {
                        assert(q[p.len() as int] == y);
                    }
                    if p.contains(y) {
                        let k = choose|k: int| 0 <= k < p.len() && p[k] == y;
                        assert(q[k] == y);
                    }
                    if q.contains(y) && y != x {
                        let k = choose|k: int| 0 <= k < q.len() && q[k] == y;
                        assert(p[k] == y);
                    }
                }
            }
        }
    }
}

/// The merged list is clean and holds exactly the real URLs of both inputs.
pub proof fn lemma_merged_shape(a: Seq<Seq<char>>, b: Seq<Seq<char>>)
    ensures
        is_clean(merged(a, b)),
        forall|x: Seq<char>|
            #[trigger] merged(a, b).contains(x) <==> (!is_pseudo(x) && (a.contains(x)
                || b.contains(x))),
{
    lemma_absorb_shape(Seq::empty(), a + b);
    assert forall|x: Seq<char>| #[trigger] (a + b).contains(x) <==> (a.contains(x) || b.contains(
        x)) by {
        if (a + b).contains(x) {
            let k = choose|k: int| 0 <= k < (a + b).len() && (a + b)[k] == x;
            if k < a.len() {
                assert(a[k] == x);
            } else {
                assert(b[k - a.len()] == x);
            }
        }
        if a.contains(x) {
            let k = choose|k: int| 0 <= k < a.len() && a[k] == x;
            assert((a + b)[k] == x);
        }
        if b.contains(x) {
            let k = choose|k: int| 0 <= k < b.len() && b[k] == x;
            assert((a + b)[a.len() + k] == x);
        }
    }
}

/// Folding a clean list into nothing gives the list back.
pub proof fn lemma_absorb_clean(s: Seq<Seq<char>>)
    requires
        is_clean(s),
    ensures
        absorb(Seq::empty(), s) == s,
    decreases s.len(),
{
    if s.len() > 0 {
        let d = s.drop_last();
        assert(is_clean(d)) by {
            assert forall|i: int| 0 <= i < d.len() implies !is_pseudo(#[trigger] d[i]) by {
                assert(d[i] == s[i]);
            }
        }
        lemma_absorb_clean(d);
        assert(!is_pseudo(s[s.len() - 1]));
        if d.contains(s.last()) {
            let k = choose|k: int| 0 <= k < d.len() && d[k] == s.last();
            assert(s[k] == s[s.len() - 1]);
        }
        assert(d.push(s.last()) =~= s);
    }
}

/// Folding entries that are all pseudo or already present changes nothing.
pub proof fn lemma_absorb_covered(acc: Seq<Seq<char>>, s: Seq<Seq<char>>)
    requires
        forall|i: int| 0 <= i < s.len() ==> is_pseudo(#[trigger] s[i]) || acc.contains(s[i]),
    ensures
        absorb(acc, s) == acc,
    decreases s.len(),
{
    if s.len() > 0 {
        let d = s.drop_last();
        assert forall|i: int| 0 <= i < d.len() implies is_pseudo(#[trigger] d[i]) || acc.contains(
            d[i]) by {
            assert(d[i] == s[i]);
        }
        lemma_absorb_covered(acc, d);
        assert(s.last() == s[s.len() - 1]);
    }
}

/// Merging is idempotent: merging the candidate list again into a merged
/// list changes nothing. The merged list holds no pseudo entry and no
/// repeated URL, and keeps the cleaned existing list, in order, as its
/// prefix.
pub proof fn lemma_merge_idempotent(a: Seq<Seq<char>>, b: Seq<Seq<char>>)
    ensures
        merged(merged(a, b), b) == merged(a, b),
        is_clean(merged(a, b)),
        merged(a, b).subrange(0, absorb(Seq::empty(), a).len() as int) == absorb(
            Seq::empty(),
            a,
        ),
{
    let e = Seq::<Seq<char>>::empty();
    let m = merged(a, b);
    assert(is_clean(e));
    lemma_merged_shape(a, b);
    lemma_absorb_concat(e, a, b);
    lemma_absorb_shape(e, a);
    lemma_absorb_shape(absorb(e, a), b);
    lemma_absorb_concat(e, m, b);
    lemma_absorb_clean(m);
    assert forall|i: int| 0 <= i < b.len() implies is_pseudo(#[trigger] b[i]) || m.contains(
        b[i]) by {
        assert(b.contains(b[i]));
    }
    lemma_absorb_covered(m, b);
}

/// The merged list keeps first-seen order: for every prefix of `a + b`, the
/// merge of that prefix alone is a prefix of the merged list. So a URL
/// whose first occurrence comes earlier stands earlier.
pub proof fn lemma_merge_first_seen_order(a: Seq<Seq<char>>, b: Seq<Seq<char>>, k: int)
    requires
        0 <= k <= a.len() + b.len(),
    ensures
        absorb(Seq::empty(), (a + b).take(k)).len() <= merged(a, b).len(),
        merged(a, b).subrange(0, absorb(Seq::empty(), (a + b).take(k)).len() as int) == absorb(
            Seq::empty(),
            (a + b).take(k),
        ),
{
    let e = Seq::<Seq<char>>::empty();
    let s = a + b;
    assert(s =~= s.take(k) + s.skip(k));
    lemma_absorb_concat(e, s.take(k), s.skip(k));
    assert(is_clean(e));
    lemma_absorb_shape(e, s.take(k));
    lemma_absorb_shape(absorb(e, s.take(k)), s.skip(k));
}

/// Where `m[i]` stands before `m[j]`, every occurrence of `m[j]` in `s` is
/// preceded by an occurrence of `m[i]`.
pub open spec fn first_seen_order(s: Seq<Seq<char>>, m: Seq<Seq<char>>) -> bool {
    forall|i: int, j: int, k: int|
        #![trigger m[i], m[j], s[k]]
        0 <= i < j < m.len() && 0 <= k < s.len() && s[k] == m[j] ==> occurs_before(s, k, m[i])
}

/// `x` occurs in `s` before index `k`.
pub open spec fn occurs_before(s: Seq<Seq<char>>, k: int, x: Seq<char>) -> bool {
    exists|k2: int| 0 <= k2 < k && #[trigger] s[k2] == x
}

/// First-occurrence order, stated by index: where URL `m[i]` stands before
/// `m[j]` in the merged list `m`, every occurrence of `m[j]` in `a + b` is
/// preceded by an occurrence of `m[i]`.
pub proof fn lemma_merge_order(a: Seq<Seq<char>>, b: Seq<Seq<char>>)
    ensures
        first_seen_order(a + b, merged(a, b)),
{
    let s = a + b;
    let m = merged(a, b);
    let e = Seq::<Seq<char>>::empty();
    lemma_merged_shape(a, b);
    assert forall|i: int, j: int, k: int|
        #![trigger m[i], m[j], s[k]]
        0 <= i < j < m.len() && 0 <= k < s.len() && s[k] == m[j] implies occurs_before(
        s,
        k,
        m[i],
    ) by {
        lemma_merge_first_seen_order(a, b, k + 1);
        assert(is_clean(e));
        lemma_absorb_shape(e, s.take(k + 1));
        let p = absorb(e, s.take(k + 1));
        assert(m.contains(m[j]));
        assert(!is_pseudo(m[j]));
        assert(s.take(k + 1)[k] == m[j]);
        assert(p.contains(m[j]));
        let j2 = choose|j2: int| 0 <= j2 < p.len() && p[j2] == m[j];
        assert(m.subrange(0, p.len() as int)[j2] == m[j2]);
        assert(j2 == j);
        assert(m.subrange(0, p.len() as int)[i] == m[i]);
        assert(p.contains(m[i]));
        let t = s.take(k + 1);
        let mi = m[i];
        assert(t.contains(mi));
        let k2 = choose|k2: int| 0 <= k2 < t.len() && #[trigger] t[k2] == mi;
        assert(s[k2] == m[i]);
        assert(m[i] != m[j]);
    }
}

/// What merging `candidate` adds after the cleaned `existing` list.
pub open spec fn additions(existing: Seq<Seq<char>>, candidate: Seq<Seq<char>>) -> Seq<
    Seq<char>,
> {
    merged(existing, candidate).skip(absorb(Seq::empty(), existing).len() as int)
}

/// The trackers a merge adds to `existing` are exactly the real URLs of
/// `candidate` that `existing` lacks, each once.
pub proof fn lemma_additions_members(existing: Seq<Seq<char>>, candidate: Seq<Seq<char>>)
    ensures
        is_clean(additions(existing, candidate)),
        forall|x: Seq<char>|
            #[trigger] additions(existing, candidate).contains(x) <==> (!is_pseudo(x)
                && candidate.contains(x) && !existing.contains(x)),
{
    let e = Seq::<Seq<char>>::empty();
    let m = merged(existing, candidate);
    let a0 = absorb(e, existing);
    let base = a0.len() as int;
    let t = additions(existing, candidate);
    assert(is_clean(e));
    lemma_absorb_shape(e, existing);
    lemma_absorb_shape(a0, candidate);
    lemma_absorb_concat(e, existing, candidate);
    assert(m.subrange(0, base) == a0);
    assert forall|i: int, j: int| 0 <= i < t.len() && 0 <= j < t.len() && i != j implies t[i]
        != t[j] by {
        assert(t[i] == m[base + i] && t[j] == m[base + j]);
    }
    assert forall|i: int| 0 <= i < t.len() implies !is_pseudo(#[trigger] t[i]) by {
        assert(t[i] == m[base + i]);
    }
    assert forall|x: Seq<char>| #[trigger] t.contains(x) <==> (!is_pseudo(x) && candidate.contains(
        x) && !existing.contains(x)) by {
        assert(a0.contains(x) <==> (!is_pseudo(x) && existing.contains(x)));
        assert(m.contains(x) <==> (a0.contains(x) || (!is_pseudo(x) && candidate.contains(x))));
        if t.contains(x) {
            let k = choose|k: int| 0 <= k < t.len() && t[k] == x;
            assert(m[base + k] == x);
            if a0.contains(x) {
                let j = choose|j: int| 0 <= j < a0.len() && a0[j] == x;
                assert(m[j] == x);
            }
        }
        if m.contains(x) && !a0.contains(x) {
            let k = choose|k: int| 0 <= k < m.len() && m[k] == x;
            if k < base {
                assert(a0[k] == x);
            }
            assert(t[k - base] == x);
        }
    }
}

/// The trackers of `candidate` that the client's list `existing` lacks:
/// each real URL once, in first-seen order.
pub fn tracker_additions(existing: &Vec<String>, candidate: &Vec<String>) -> (r: Vec<String>)
    ensures
        r.deep_view() == additions(existing.deep_view(), candidate.deep_view()),
        is_clean(r.deep_view()),
        forall|x: Seq<char>|
            #[trigger] r.deep_view().contains(x) <==> (!is_pseudo(x)
                && candidate.deep_view().contains(x) && !existing.deep_view().contains(x)),
{
    let ghost e = Seq::<Seq<char>>::empty();
    let mut all: Vec<String> = Vec::new();
    assert(all.deep_view() =~= e);
    absorb_into(&mut all, existing);
    let base = all.len();
    absorb_into(&mut all, candidate);
    let mut r: Vec<String> = Vec::new();
    let mut k: usize = base;
    proof {
        assert(is_clean(e));
        lemma_absorb_shape(e, existing.deep_view());
        lemma_absorb_shape(absorb(e, existing.deep_view()), candidate.deep_view());
        lemma_absorb_concat(e, existing.deep_view(), candidate.deep_view());
    }
    while k < all.len()
        invariant
            base <= k <= all.len(),
            r.deep_view() == all.deep_view().subrange(base as int, k as int),
        decreases all.len() - k,
    {
        let c = all[k].clone();
        assert(c@ == all.deep_view()[k as int]);
        let ghost before = r.deep_view();
        r.push(c);
        assert(r.deep_view() =~= before.push(c@));
        assert(r.deep_view() =~= all.deep_view().subrange(base as int, k + 1));
        k += 1;
    }
    proof {
        assert(r.deep_view() =~= all.deep_view().skip(base as int));
        lemma_additions_members(existing.deep_view(), candidate.deep_view());
    }
    r
}

/// Returns whether every URL of `wanted` is already in `existing`.
pub fn covers(existing: &Vec<String>, wanted: &Vec<String>) -> (r: bool)
    ensures
        r == (forall|x: Seq<char>|
            #[trigger] wanted.deep_view().contains(x) ==> existing.deep_view().contains(x)),
{
    let mut i: usize = 0;
    while i < wanted.len()
        invariant
            i <= wanted.len(),
            forall|k: int| 0 <= k < i ==> existing.deep_view().contains(#[trigger] wanted.deep_view()[k]),
        decreases wanted.len() - i,
    {
        if !contains_url(existing, &wanted[i]) {
            assert(wanted.deep_view().contains(wanted.deep_view()[i as int]));
            return false;
        }
        i += 1;
    }
    proof {
        assert forall|x: Seq<char>| #[trigger] wanted.deep_view().contains(x) implies existing.deep_view().contains(x) by {
            let k = choose|k: int| 0 <= k < wanted.deep_view().len() && wanted.deep_view()[k] == x;
        }
    }
    true
}

/// The text that the percent escapes of `s` spell, or `None` where that text
/// is not valid UTF-8.
pub uninterp spec fn percent_decoded(s: Seq<char>) -> Option<Seq<char>>;

/// Relies on `urlencoding::decode`: it decodes `%XX` escapes as UTF-8, fails
/// only on invalid UTF-8, and returns text without `%` unchanged.
#[verifier::external_body]
fn percent_decode(s: &String) -> (r: Option<String>)
    ensures
        match r {
            Some(d) => percent_decoded(s@) == Some(d@),
            None => percent_decoded(s@).is_none(),
        },
        !s@.contains('%') ==> r.is_some() && r.unwrap()@ == s@,
{
    urlencoding::decode(s).ok().map(|d| d.into_owned())
}

/// Tier groups flattened into one list, tier order kept.
pub open spec fn flat(groups: Seq<Seq<Seq<char>>>) -> Seq<Seq<char>>
    decreases groups.len(),
{
    if groups.len() == 0 {
        Seq::empty()
    } else {
        flat(groups.drop_last()) + groups.last()
    }
}

/// Every URL percent-decoded, or `None` if one of them fails to decode.
pub open spec fn decode_all(s: Seq<Seq<char>>) -> Option<Seq<Seq<char>>>
    decreases s.len(),
{
    if s.len() == 0 {
        Some(Seq::empty())
    } else {
        match (decode_all(s.drop_last()), percent_decoded(s.last())) {
            (Some(p), Some(d)) => Some(p.push(d)),
            _ => None,
        }
    }
}

/// The comparison set of a tracker-announce list: flattened, decoded, pseudo
/// entries dropped, each URL once in first-seen order.
pub open spec fn normalized(groups: Seq<Seq<Seq<char>>>) -> Option<Seq<Seq<char>>> {
    match decode_all(flat(groups)) {
        Some(d) => Some(absorb(Seq::empty(), d)),
        None => None,
    }
}

proof fn lemma_flat_concat(a: Seq<Seq<Seq<char>>>, b: Seq<Seq<Seq<char>>>)
    ensures
        flat(a + b) == flat(a) + flat(b),
    decreases b.len(),
{
    if b.len() == 0 {
        assert(a + b =~= a);
        assert(flat(a) + flat(b) =~= flat(a));
    } else {
        assert((a + b).drop_last() =~= a + b.drop_last());
        assert((a + b).last() == b.last());
        lemma_flat_concat(a, b.drop_last());
        assert(flat(a) + flat(b.drop_last()) + b.last() =~= flat(a) + (flat(b.drop_last())
            + b.last()));
    }
}

proof fn lemma_decode_fails_on(a: Seq<Seq<char>>, b: Seq<Seq<char>>)
    requires
        decode_all(a).is_none(),
    ensures
        decode_all(a + b).is_none(),
    decreases b.len(),
{
    if b.len() == 0 {
        assert(a + b =~= a);
    } else {
        assert((a + b).drop_last() =~= a + b.drop_last());
        lemma_decode_fails_on(a, b.drop_last());
    }
}

/// Normalizes tier groups of announce URLs into one comparison list:
/// flattened, percent-decoded, pseudo entries dropped, duplicates removed.
/// `None` when a URL does not decode to valid UTF-8.
pub fn normalize(groups: &Vec<Vec<String>>) -> (r: Option<Vec<String>>)
    ensures
        match r {
            Some(v) => normalized(groups.deep_view()) == Some(v.deep_view()),
            None => normalized(groups.deep_view()).is_none(),
        },
{
    let ghost g = groups.deep_view();
    let mut decoded: Vec<String> = Vec::new();
    let mut i: usize = 0;
    assert(flat(g.take(0)) =~= Seq::<Seq<char>>::empty());
    assert(decoded.deep_view() =~= Seq::<Seq<char>>::empty());
    while i < groups.len()
        invariant
            i <= groups.len(),
            g == groups.deep_view(),
            decode_all(flat(g.take(i as int))) == Some(decoded.deep_view()),
        decreases groups.len() - i,
    {
        let group = &groups[i];
        let ghost pre = flat(g.take(i as int));
        assert(g[i as int] == group.deep_view());
        let mut j: usize = 0;
        assert(pre + group.deep_view().take(0) =~= pre);
        while j < group.len()
            invariant
                i < groups.len(),
                g == groups.deep_view(),
                pre == flat(g.take(i as int)),
                g[i as int] == group.deep_view(),
                group == groups[i as int],
                j <= group.len(),
                decode_all(pre + group.deep_view().take(j as int)) == Some(decoded.deep_view()),
            decreases group.len() - j,
        {
            let ghost cur = pre + group.deep_view().take(j as int);
            let ghost next = pre + group.deep_view().take(j as int + 1);
            assert(next.drop_last() =~= cur);
            assert(next.last() == group[j as int]@);
            match percent_decode(&group[j]) {
                Some(d) => {
                    let ghost before = decoded.deep_view();
                    decoded.push(d);
                    assert(decoded.deep_view() =~= before.push(d@));
                },
                None => {
                    proof {
                        let rest = group.deep_view().skip(j as int + 1);
                        lemma_decode_fails_on(next, rest);
                        assert(next + rest =~= pre + group.deep_view());
                        assert(g.take(i as int + 1).drop_last() =~= g.take(i as int));
                        assert(g.take(i as int + 1).last() == g[i as int]);
                        assert(g =~= g.take(i as int + 1) + g.skip(i as int + 1));
                        lemma_flat_concat(g.take(i as int + 1), g.skip(i as int + 1));
                        lemma_decode_fails_on(pre + group.deep_view(), flat(g.skip(i as int + 1)));
                    }
                    return None;
                },
            }
            j += 1;
        }
        proof {
            assert(group.deep_view().take(group.len() as int) =~= group.deep_view());
            assert(g.take(i as int + 1).drop_last() =~= g.take(i as int));
            assert(g.take(i as int + 1).last() == g[i as int]);
        }
        i += 1;
    }
    assert(g.take(groups.len() as int) =~= g);
    let mut out: Vec<String> = Vec::new();
    assert(out.deep_view() =~= Seq::<Seq<char>>::empty());
    absorb_into(&mut out, &decoded);
    Some(out)
}

} // verus!
