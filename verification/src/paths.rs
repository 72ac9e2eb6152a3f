//! Unix paths held as text: their components, joining a relative path onto a
//! folder, taking a folder prefix off a path, and between absolute paths and
//! `file://` URIs.
use vstd::prelude::*;

verus! {

/// Whether a path is absolute: on Unix, whether it starts at the root `/`.
pub open spec fn is_absolute(p: Seq<char>) -> bool {
    p.len() > 0 && p[0] == '/'
}

/// `base` joined with `p` as `Path::join` does on Unix: an absolute `p`
/// replaces `base`; otherwise `p` is appended, with one `/` in between unless
/// `base` is empty or already ends with `/`.
pub open spec fn join_spec(base: Seq<char>, p: Seq<char>) -> Seq<char> {
    if is_absolute(p) {
        p
    } else if base.len() > 0 && base.last() != '/' {
        base + seq!['/'] + p
    } else {
        base + p
    }
}

/// Joins `p` onto `base` (see [`join_spec`]).
pub fn join_path(base: &str, p: &str) -> (r: String)
    ensures
        r@ == join_spec(base@, p@),
{
    let pv = crate::text::chars_of(p);
    if pv.len() > 0 && pv[0] == '/' {
        return crate::text::string_from_chars(pv.as_slice());
    }
    let mut out = crate::text::chars_of(base);
    let n = out.len();
    if n > 0 && out[n - 1] != '/' {
        out.push('/');
    }
    let mut i: usize = 0;
    let ghost start = out@;
    while i < pv.len()
        invariant
            i <= pv.len(),
            out@ == start + pv@.take(i as int),
        decreases pv.len() - i,
    {
        out.push(pv[i]);
        i = i + 1;
        assert(pv@.take(i as int) == pv@.take(i - 1).push(pv@[i - 1]));
    }
    assert(pv@.take(pv.len() as int) == pv@);
    crate::text::string_from_chars(out.as_slice())
}

/// A path segment that is not a component of its own: an empty one (from a
/// doubled or trailing `/`) or `.`.
pub open spec fn ignorable(seg: Seq<char>) -> bool {
    seg.len() == 0 || seg == seq!['.']
}

/// Whether `seg` holds no `/`.
pub open spec fn no_sep(seg: Seq<char>) -> bool {
    forall|k: int| 0 <= k < seg.len() ==> seg[k] != '/'
}

/// `s` cut at every `/`, scanning from position `i`, where the segment being
/// read began at `start`.
pub open spec fn split_from(s: Seq<char>, start: int, i: int) -> Seq<Seq<char>>
    decreases s.len() - i,
{
    if i >= s.len() {
        seq![s.subrange(start, s.len() as int)]
    } else if s[i] == '/' {
        seq![s.subrange(start, i)] + split_from(s, i + 1, i + 1)
    } else {
        split_from(s, start, i + 1)
    }
}

/// The segments of `s` between its `/` separators (always at least one).
pub open spec fn segments(s: Seq<char>) -> Seq<Seq<char>> {
    split_from(s, 0, 0)
}

/// The segments that are components, in order.
pub open spec fn kept(segs: Seq<Seq<char>>) -> Seq<Seq<char>>
    decreases segs.len(),
{
    if segs.len() == 0 {
        seq![]
    } else if ignorable(segs[0]) {
        kept(segs.drop_first())
    } else {
        seq![segs[0]] + kept(segs.drop_first())
    }
}

/// Length of what precedes the body of `p`: one character for a root `/` or
/// for a leading `.` component (`.` alone or followed by `/`), else none.
pub open spec fn lead_len(p: Seq<char>) -> int {
    if p.len() > 0 && p[0] == '/' {
        1
    } else if p.len() > 0 && p[0] == '.' && (p.len() == 1 || p[1] == '/') {
        1
    } else {
        0
    }
}

/// The part of `p` after its root or leading `.`.
pub open spec fn body(p: Seq<char>) -> Seq<char> {
    p.skip(lead_len(p))
}

/// The components of `p` as `Path::components` yields them on Unix: `/` for
/// the root or `.` for a leading current directory, then the text of every
/// other segment that is neither empty nor `.`.
pub open spec fn components(p: Seq<char>) -> Seq<Seq<char>> {
    if lead_len(p) == 1 {
        seq![p.take(1)] + kept(segments(body(p)))
    } else {
        kept(segments(body(p)))
    }
}

/// Index in `segs` just past its `j`-th component (0 when `j` is 0).
pub open spec fn skip_components(segs: Seq<Seq<char>>, j: nat) -> nat
    decreases segs.len(),
{
    if j == 0 || segs.len() == 0 {
        0
    } else if ignorable(segs[0]) {
        1 + skip_components(segs.drop_first(), j)
    } else {
        1 + skip_components(segs.drop_first(), (j - 1) as nat)
    }
}

/// `segs` without its leading segments that are not components.
pub open spec fn trim_front(segs: Seq<Seq<char>>) -> Seq<Seq<char>>
    decreases segs.len(),
{
    if segs.len() > 0 && ignorable(segs[0]) {
        trim_front(segs.drop_first())
    } else {
        segs
    }
}

/// `segs` without its trailing segments that are not components.
pub open spec fn trim_back(segs: Seq<Seq<char>>) -> Seq<Seq<char>>
    decreases segs.len(),
{
    if segs.len() > 0 && ignorable(segs.last()) {
        trim_back(segs.drop_last())
    } else {
        segs
    }
}

/// What `Path::strip_prefix` gives on Unix for `p` and `base`, as text. With
/// an empty `base`: `p` without trailing `/` and `.` segments. Otherwise,
/// when the components of `base` begin the components of `p`: the text of
/// `p` from its next component to its last one (empty when none is left);
/// else nothing.
pub open spec fn strip_prefix_spec(p: Seq<char>, base: Seq<char>) -> Option<Seq<char>> {
    let segs = segments(body(p));
    let k = components(base).len();
    if base.len() == 0 {
        Some(p.take(lead_len(p)) + crate::text::join_spec(trim_back(segs), seq!['/']))
    } else if k <= components(p).len() && components(p).take(k as int) == components(base) {
        let rest = segs.skip(skip_components(segs, (k - lead_len(p)) as nat) as int);
        Some(crate::text::join_spec(trim_back(trim_front(rest)), seq!['/']))
    } else {
        None
    }
}

proof fn lemma_split_shift(pre: Seq<char>, y: Seq<char>, a: int, b: int)
    requires
        0 <= a <= b <= y.len(),
    ensures
        split_from(pre + y, pre.len() + a, pre.len() + b) == split_from(y, a, b),
    decreases y.len() - b,
{
    let s = pre + y;
    let n = pre.len() as int;
    if b >= y.len() {
        assert(s.subrange(n + a, s.len() as int) =~= y.subrange(a, y.len() as int));
    } else if y[b] == '/' {
        assert(s[n + b] == y[b]);
        assert(s.subrange(n + a, n + b) =~= y.subrange(a, b));
        lemma_split_shift(pre, y, b + 1, b + 1);
    } else {
        assert(s[n + b] == y[b]);
        lemma_split_shift(pre, y, a, b + 1);
    }
}

proof fn lemma_split_concat_from(x: Seq<char>, y: Seq<char>, start: int, i: int)
    requires
        0 <= start <= i <= x.len(),
    ensures
        split_from(x + seq!['/'] + y, start, i) == split_from(x, start, i) + segments(y),
    decreases x.len() - i,
{
    let s = x + seq!['/'] + y;
    if i == x.len() {
        assert(s[i] == '/');
        assert(s.subrange(start, i) =~= x.subrange(start, x.len() as int));
        lemma_split_shift(x + seq!['/'], y, 0, 0);
    } else if x[i] == '/' {
        assert(s[i] == x[i]);
        assert(s.subrange(start, i) =~= x.subrange(start, i));
        lemma_split_concat_from(x, y, i + 1, i + 1);
        let seg = x.subrange(start, i);
        assert(seq![seg] + (split_from(x, i + 1, i + 1) + segments(y)) =~= (seq![seg]
            + split_from(x, i + 1, i + 1)) + segments(y));
    } else {
        assert(s[i] == x[i]);
        lemma_split_concat_from(x, y, start, i + 1);
    }
}

/// The segments of `x`, a `/`, then `y` are those of `x` followed by those of `y`.
pub proof fn lemma_segments_concat(x: Seq<char>, y: Seq<char>)
    ensures
        segments(x + seq!['/'] + y) == segments(x) + segments(y),
{
    lemma_split_concat_from(x, y, 0, 0);
}

proof fn lemma_split_plain(s: Seq<char>, start: int, i: int)
    requires
        0 <= start <= i <= s.len(),
        forall|k: int| i <= k < s.len() ==> s[k] != '/',
    ensures
        split_from(s, start, i) == seq![s.subrange(start, s.len() as int)],
    decreases s.len() - i,
{
    if i < s.len() {
        lemma_split_plain(s, start, i + 1);
    }
}

proof fn lemma_split_no_sep(s: Seq<char>, start: int, i: int)
    requires
        0 <= start <= i <= s.len(),
        forall|k: int| start <= k < i ==> s[k] != '/',
    ensures
        forall|t: int|
            0 <= t < split_from(s, start, i).len() ==> no_sep(#[trigger] split_from(s, start, i)[t]),
    decreases s.len() - i,
{
    if i >= s.len() {
        let seg = s.subrange(start, s.len() as int);
        assert forall|k: int| 0 <= k < seg.len() implies seg[k] != '/' by {
            assert(seg[k] == s[start + k]);
        }
        assert(split_from(s, start, i) == seq![seg]);
        assert forall|t: int| 0 <= t < split_from(s, start, i).len() implies no_sep(
            #[trigger] split_from(s, start, i)[t],
        ) by {
            assert(split_from(s, start, i)[t] == seg);
        }
    } else if s[i] == '/' {
        lemma_split_no_sep(s, i + 1, i + 1);
        let r = split_from(s, i + 1, i + 1);
        let seg = s.subrange(start, i);
        assert forall|k: int| 0 <= k < seg.len() implies seg[k] != '/' by {
            assert(seg[k] == s[start + k]);
        }
        assert forall|t: int| 0 <= t < split_from(s, start, i).len() implies no_sep(
            #[trigger] split_from(s, start, i)[t],
        ) by {
            if t > 0 {
                assert(split_from(s, start, i)[t] == r[t - 1]);
            } else {
                assert(split_from(s, start, i)[t] == seg);
            }
        }
    } else {
        lemma_split_no_sep(s, start, i + 1);
        assert(split_from(s, start, i) == split_from(s, start, i + 1));
    }
}

proof fn lemma_split_first(s: Seq<char>, start: int, i: int)
    requires
        0 <= start <= i <= s.len(),
    ensures
        split_from(s, start, i).len() > 0,
        split_from(s, start, i)[0].len() >= i - start,
        forall|k: int| 0 <= k < i - start ==> #[trigger] split_from(s, start, i)[0][k] == s[start + k],
    decreases s.len() - i,
{
    if i >= s.len() {
    } else if s[i] == '/' {
    } else {
        lemma_split_first(s, start, i + 1);
    }
}

/// Every segment of `s` is free of `/`.
pub proof fn lemma_segments_no_sep(s: Seq<char>)
    ensures
        forall|t: int| 0 <= t < segments(s).len() ==> no_sep(#[trigger] segments(s)[t]),
{
    lemma_split_no_sep(s, 0, 0);
}

/// Joining segments free of `/` with `/` and cutting the result again gives them back.
pub proof fn lemma_segments_join(t: Seq<Seq<char>>)
    requires
        t.len() > 0,
        forall|k: int| 0 <= k < t.len() ==> no_sep(#[trigger] t[k]),
    ensures
        segments(crate::text::join_spec(t, seq!['/'])) == t,
    decreases t.len(),
{
    if t.len() == 1 {
        lemma_split_plain(t[0], 0, 0);
        assert(t[0].subrange(0, t[0].len() as int) =~= t[0]);
        assert(seq![t[0]] =~= t);
    } else {
        let d = t.drop_last();
        assert forall|k: int| 0 <= k < d.len() implies no_sep(#[trigger] d[k]) by {
            assert(d[k] == t[k]);
        }
        lemma_segments_join(d);
        lemma_split_concat_from(crate::text::join_spec(d, seq!['/']), t.last(), 0, 0);
        assert(no_sep(t[t.len() - 1]));
        lemma_split_plain(t.last(), 0, 0);
        assert(t.last().subrange(0, t.last().len() as int) =~= t.last());
        assert(d + seq![t.last()] =~= t);
    }
}

/// Keeping the components of two lists of segments one after the other.
pub proof fn lemma_kept_concat(a: Seq<Seq<char>>, b: Seq<Seq<char>>)
    ensures
        kept(a + b) == kept(a) + kept(b),
    decreases a.len(),
{
    if a.len() == 0 {
        assert(a + b =~= b);
    } else {
        assert((a + b).drop_first() =~= a.drop_first() + b);
        assert((a + b)[0] == a[0]);
        lemma_kept_concat(a.drop_first(), b);
        if !ignorable(a[0]) {
            assert(seq![a[0]] + (kept(a.drop_first()) + kept(b)) =~= (seq![a[0]] + kept(
                a.drop_first(),
            )) + kept(b));
        }
    }
}

/// After skipping `j` components, the components left are those after the `j`-th.
pub proof fn lemma_kept_skip(segs: Seq<Seq<char>>, j: nat)
    requires
        j <= kept(segs).len(),
    ensures
        skip_components(segs, j) <= segs.len(),
        kept(segs.skip(skip_components(segs, j) as int)) == kept(segs).skip(j as int),
    decreases segs.len(),
{
    if j == 0 {
        assert(segs.skip(0) =~= segs);
        assert(kept(segs).skip(0) =~= kept(segs));
    } else if segs.len() == 0 {
    } else {
        let tail = segs.drop_first();
        let jj: nat = if ignorable(segs[0]) { j } else { (j - 1) as nat };
        lemma_kept_skip(tail, jj);
        let n = skip_components(tail, jj);
        assert(segs.skip(1 + n as int) =~= tail.skip(n as int));
        if !ignorable(segs[0]) {
            assert(kept(segs).skip(j as int) =~= kept(tail).skip(jj as int));
        }
    }
}

/// Trimming leading non-components keeps the components and leaves a suffix
/// that starts with a component, if anything.
pub proof fn lemma_trim_front(segs: Seq<Seq<char>>)
    ensures
        kept(trim_front(segs)) == kept(segs),
        trim_front(segs).len() <= segs.len(),
        trim_front(segs) == segs.skip(segs.len() - trim_front(segs).len()),
        trim_front(segs).len() > 0 ==> !ignorable(trim_front(segs)[0]),
    decreases segs.len(),
{
    if segs.len() > 0 && ignorable(segs[0]) {
        let tail = segs.drop_first();
        lemma_trim_front(tail);
        assert(segs.skip(segs.len() - trim_front(tail).len()) =~= tail.skip(
            tail.len() - trim_front(tail).len(),
        ));
    } else {
        assert(segs.skip(0) =~= segs);
    }
}

/// Trimming trailing non-components keeps the components and leaves a prefix
/// that ends with a component, if anything.
pub proof fn lemma_trim_back(segs: Seq<Seq<char>>)
    ensures
        kept(trim_back(segs)) == kept(segs),
        trim_back(segs).len() <= segs.len(),
        trim_back(segs) == segs.take(trim_back(segs).len() as int),
        trim_back(segs).len() > 0 ==> !ignorable(trim_back(segs).last()),
    decreases segs.len(),
{
    if segs.len() > 0 && ignorable(segs.last()) {
        let d = segs.drop_last();
        lemma_trim_back(d);
        assert(d + seq![segs.last()] =~= segs);
        lemma_kept_concat(d, seq![segs.last()]);
        let one = seq![segs.last()];
        assert(one[0] == segs.last());
        assert(one.drop_first() =~= Seq::<Seq<char>>::empty());
        assert(kept(one.drop_first()) =~= Seq::<Seq<char>>::empty());
        assert(kept(one) == kept(one.drop_first()));
        assert(segs.take(trim_back(d).len() as int) =~= d.take(trim_back(d).len() as int));
    } else {
        assert(segs.take(segs.len() as int) =~= segs);
    }
}

/// A join of two or more parts is the first part, the separator, then the
/// join of the others.
pub proof fn lemma_join_front(t: Seq<Seq<char>>, sep: Seq<char>)
    requires
        t.len() >= 2,
    ensures
        crate::text::join_spec(t, sep) == t[0] + sep + crate::text::join_spec(t.drop_first(), sep),
    decreases t.len(),
{
    let tail = t.drop_first();
    if t.len() == 2 {
        assert(t.drop_last().len() == 1);
        assert(t.drop_last()[0] == t[0]);
        assert(tail.len() == 1);
        assert(tail[0] == t.last());
        assert(crate::text::join_spec(t.drop_last(), sep) == t[0]);
        assert(crate::text::join_spec(tail, sep) == t.last());
    } else {
        let d = t.drop_last();
        lemma_join_front(d, sep);
        assert(d.drop_first() =~= tail.drop_last());
        assert(d[0] == t[0]);
        assert(tail.last() == t.last());
        let jt = crate::text::join_spec(d.drop_first(), sep);
        assert(crate::text::join_spec(tail, sep) == crate::text::join_spec(tail.drop_last(), sep) + sep
            + tail.last());
        assert((t[0] + sep + jt) + sep + t.last() =~= t[0] + sep + (jt + sep + t.last()));
    }
}

/// A join begins with its first part, followed by the separator when more parts follow.
pub proof fn lemma_join_starts(t: Seq<Seq<char>>)
    requires
        t.len() > 0,
    ensures
        crate::text::join_spec(t, seq!['/']).len() >= t[0].len(),
        forall|k: int|
            0 <= k < t[0].len() ==> #[trigger] crate::text::join_spec(t, seq!['/'])[k] == t[0][k],
        t.len() >= 2 ==> crate::text::join_spec(t, seq!['/'])[t[0].len() as int] == '/',
{
    if t.len() >= 2 {
        lemma_join_front(t, seq!['/']);
    }
}

/// A path that is not empty has at least one component.
pub proof fn lemma_components_nonempty(p: Seq<char>)
    requires
        p.len() > 0,
    ensures
        components(p).len() > 0,
{
    if lead_len(p) == 0 {
        lemma_first_segment(p);
        assert(body(p) =~= p);
    }
}

/// Without a root or leading `.`, the first segment of a path that is not
/// empty is a component that starts as the path does.
pub proof fn lemma_first_segment(p: Seq<char>)
    requires
        p.len() > 0,
        lead_len(p) == 0,
    ensures
        segments(p).len() > 0,
        !ignorable(segments(p)[0]),
        segments(p)[0].len() >= 1,
        segments(p)[0][0] == p[0],
        p[0] == '.' ==> segments(p)[0].len() >= 2 && segments(p)[0][1] == p[1],
        kept(segments(p)).len() > 0,
{
    assert(split_from(p, 0, 0) == split_from(p, 0, 1));
    if p[0] == '.' {
        assert(split_from(p, 0, 1) == split_from(p, 0, 2));
        lemma_split_first(p, 0, 2);
    } else {
        lemma_split_first(p, 0, 1);
    }
    let s0 = segments(p)[0];
    if s0 == seq!['.'] {
        assert(s0[0] == '.');
    }
}

/// Appending to a path that is not empty keeps its root or leading `.`,
/// unless a bare `.` is followed by more than a `/`.
proof fn lemma_lead_extend(base: Seq<char>, tail: Seq<char>)
    requires
        base.len() > 0,
        !(base.len() == 1 && base[0] == '.' && tail.len() > 0 && tail[0] != '/'),
    ensures
        lead_len(base + tail) == lead_len(base),
        body(base + tail) == body(base) + tail,
{
    let c = base + tail;
    assert(c[0] == base[0]);
    if base.len() >= 2 {
        assert(c[1] == base[1]);
    } else if tail.len() > 0 {
        assert(c[1] == tail[0]);
    }
    assert(c.skip(lead_len(base)) =~= base.skip(lead_len(base)) + tail);
}

proof fn lemma_kept_segments_empty()
    ensures
        kept(segments(Seq::<char>::empty())) == Seq::<Seq<char>>::empty(),
{
    let e = Seq::<char>::empty();
    let ss = segments(e);
    assert(ss == seq![e.subrange(0, 0)]);
    assert(ss[0] =~= e);
    assert(ignorable(ss[0]));
    assert(ss.drop_first() =~= Seq::<Seq<char>>::empty());
    assert(kept(ss.drop_first()) =~= Seq::<Seq<char>>::empty());
    assert(kept(ss) == kept(ss.drop_first()));
}

/// Cutting a join of `/`-free segments keeps their components.
proof fn lemma_kept_join(t: Seq<Seq<char>>)
    requires
        forall|k: int| 0 <= k < t.len() ==> no_sep(#[trigger] t[k]),
    ensures
        kept(segments(crate::text::join_spec(t, seq!['/']))) == kept(t),
{
    if t.len() == 0 {
        assert(crate::text::join_spec(t, seq!['/']) =~= Seq::<char>::empty());
        lemma_kept_segments_empty();
    } else {
        lemma_segments_join(t);
    }
}

/// What `strip_prefix` leaves of `p` below a folder `base` that is not empty:
/// a relative path without root or leading `.`, whose components are those
/// of `p` after the components of `base`.
pub proof fn lemma_strip_result(p: Seq<char>, base: Seq<char>)
    requires
        base.len() > 0,
        strip_prefix_spec(p, base) is Some,
    ensures
        ({
            let r = strip_prefix_spec(p, base).unwrap();
            let k = components(base).len();
            &&& !is_absolute(r)
            &&& lead_len(r) == 0
            &&& k <= components(p).len()
            &&& components(p).take(k as int) == components(base)
            &&& kept(segments(r)) == components(p).skip(k as int)
            &&& normal_relative(r)
        }),
{
    let segs = segments(body(p));
    let k = components(base).len();
    lemma_components_nonempty(base);
    let cp = components(p);
    let lp = lead_len(p);
    assert(kept(segs).len() == cp.len() - lp);
    let j = (k - lp) as nat;
    lemma_kept_skip(segs, j);
    let sc = skip_components(segs, j);
    let rest = segs.skip(sc as int);
    lemma_trim_front(rest);
    let f = trim_front(rest);
    lemma_trim_back(f);
    let t = trim_back(f);
    let r = crate::text::join_spec(t, seq!['/']);
    assert(strip_prefix_spec(p, base) == Some(r));
    lemma_segments_no_sep(body(p));
    assert forall|i: int| 0 <= i < t.len() implies no_sep(#[trigger] t[i]) by {
        let off = rest.len() - f.len();
        assert(t[i] == f[i]);
        assert(f[i] == rest[off + i]);
        assert(rest[off + i] == segs[sc + off + i]);
    }
    lemma_kept_join(t);
    if t.len() > 0 {
        lemma_join_starts(t);
        assert(t[0] == f[0]);
        assert(no_sep(t[0]));
        assert(r[0] == t[0][0]);
        assert(!ignorable(t[0]));
        if t[0][0] == '.' {
            if t[0].len() == 1 {
                assert(t[0] =~= seq!['.']);
            }
            assert(t[0].len() >= 2);
            assert(r[1] == t[0][1]);
        }
        lemma_segments_join(t);
        assert(t.last() == trim_back(f).last());
    } else {
        assert(r =~= Seq::<char>::empty());
    }
    assert(cp.skip(k as int) =~= kept(segs).skip(j as int));
}

/// Joining a relative path onto a folder that is not empty puts its
/// components below the folder's.
pub proof fn lemma_join_components(base: Seq<char>, r: Seq<char>)
    requires
        base.len() > 0,
        !is_absolute(r),
    ensures
        components(join_spec(base, r)) == components(base) + kept(segments(r)),
{
    let bb = body(base);
    let rs = kept(segments(r));
    let c = join_spec(base, r);
    if base.last() != '/' {
        let tail = seq!['/'] + r;
        assert(c =~= base + tail);
        lemma_lead_extend(base, tail);
        assert(body(c) =~= bb + seq!['/'] + r);
        lemma_segments_concat(bb, r);
        lemma_kept_concat(segments(bb), segments(r));
        assert(kept(segments(body(c))) == kept(segments(bb)) + rs);
    } else {
        assert(c =~= base + r);
        assert(base[base.len() - 1] == '/');
        lemma_lead_extend(base, r);
        lemma_kept_segments_empty();
        if bb.len() == 0 {
            assert(body(c) =~= r);
            assert(bb =~= Seq::<char>::empty());
            assert(kept(segments(bb)) + rs =~= rs);
        } else {
            let d = bb.drop_last();
            assert(bb.last() == base.last());
            let e = Seq::<char>::empty();
            assert(bb =~= d + seq!['/'] + e);
            lemma_segments_concat(d, e);
            lemma_segments_concat(d, r);
            assert(body(c) =~= d + seq!['/'] + r);
            lemma_kept_concat(segments(d), segments(r));
            lemma_kept_concat(segments(d), segments(e));
            assert(segments(d) + segments(e) == segments(bb));
            assert(kept(segments(d)) + Seq::<Seq<char>>::empty() =~= kept(segments(d)));
            assert(kept(segments(body(c))) == kept(segments(bb)) + rs);
        }
    }
    if lead_len(base) == 1 {
        assert(c.take(1) =~= base.take(1));
        assert(components(c) =~= components(base) + rs);
    } else {
        assert(components(c) =~= components(base) + rs);
    }
}

proof fn lemma_strip_join_nonempty(p: Seq<char>, base: Seq<char>)
    requires
        base.len() > 0,
        strip_prefix_spec(p, base) is Some,
    ensures
        components(join_spec(base, strip_prefix_spec(p, base).unwrap())) == components(p),
{
    let r = strip_prefix_spec(p, base).unwrap();
    let k = components(base).len();
    lemma_strip_result(p, base);
    lemma_join_components(base, r);
    let cp = components(p);
    assert(cp =~= cp.take(k as int) + cp.skip(k as int));
}

proof fn lemma_strip_join_empty(p: Seq<char>)
    ensures
        components(join_spec(Seq::<char>::empty(), strip_prefix_spec(p, Seq::<char>::empty()).unwrap()))
            == components(p),
{
    let segs = segments(body(p));
    let lp = lead_len(p);
    lemma_trim_back(segs);
    let t = trim_back(segs);
    let jt = crate::text::join_spec(t, seq!['/']);
    let r = p.take(lp) + jt;
    assert(strip_prefix_spec(p, Seq::<char>::empty()) == Some(r));
    assert(join_spec(Seq::<char>::empty(), r) =~= r);
    lemma_segments_no_sep(body(p));
    assert forall|i: int| 0 <= i < t.len() implies no_sep(#[trigger] t[i]) by {
        assert(t[i] == segs[i]);
    }
    lemma_kept_join(t);
    if t.len() > 0 {
        lemma_join_starts(t);
        assert(t[0] == segs[0]);
    }
    if lp == 1 {
        assert(r[0] == p[0]);
        if p[0] == '/' {
            assert(r.skip(1) =~= jt);
        } else {
            // a leading `.`: the body is empty or starts with `/`
            if t.len() == 0 {
                assert(r =~= seq!['.']);
                assert(r.skip(1) =~= jt);
            } else {
                assert(body(p).len() > 0);
                assert(body(p)[0] == '/');
                assert(split_from(body(p), 0, 0) == seq![body(p).subrange(0, 0)] + split_from(
                    body(p),
                    1,
                    1,
                ));
                assert(segs[0] =~= Seq::<char>::empty());
                assert(t.len() >= 2);
                assert(r[1] == jt[0]);
                assert(r.skip(1) =~= jt);
            }
        }
        assert(r.take(1) =~= p.take(1));
        assert(components(r) =~= components(p));
    } else {
        assert(body(p) =~= p);
        assert(r =~= jt);
        if t.len() == 0 {
            assert(jt =~= Seq::<char>::empty());
            assert(body(r) =~= r);
        } else {
            lemma_first_segment(p);
            assert(r[0] == p[0]);
            if p[0] == '.' {
                assert(r[1] == p[1]);
            }
            assert(lead_len(r) == 0);
            assert(body(r) =~= r);
        }
    }
}

/// A path with a prefix taken off, joined back onto that prefix, has the
/// components it had: `join(base, strip_prefix(p, base))` names `p` again.
pub proof fn law_strip_prefix_then_join(p: Seq<char>, base: Seq<char>)
    requires
        strip_prefix_spec(p, base) is Some,
    ensures
        components(join_spec(base, strip_prefix_spec(p, base).unwrap())) == components(p),
{
    if base.len() == 0 {
        assert(base =~= Seq::<char>::empty());
        lemma_strip_join_empty(p);
    } else {
        lemma_strip_join_nonempty(p, base);
    }
}

/// A relative path that taking a folder off gives back as it is: empty, or
/// with segments that begin and end with a component.
pub open spec fn normal_relative(r: Seq<char>) -> bool {
    r.len() == 0 || (!ignorable(segments(r)[0]) && !ignorable(segments(r).last()))
}

proof fn lemma_join_split_from(s: Seq<char>, start: int, i: int)
    requires
        0 <= start <= i <= s.len(),
    ensures
        crate::text::join_spec(split_from(s, start, i), seq!['/']) == s.subrange(start, s.len() as int),
    decreases s.len() - i,
{
    if i >= s.len() {
        assert(split_from(s, start, i).len() == 1);
    } else if s[i] == '/' {
        lemma_join_split_from(s, i + 1, i + 1);
        let seg = s.subrange(start, i);
        let rest = split_from(s, i + 1, i + 1);
        lemma_split_first(s, i + 1, i + 1);
        let t = seq![seg] + rest;
        assert(t.drop_first() =~= rest);
        assert(t[0] == seg);
        lemma_join_front(t, seq!['/']);
        assert(seg + seq!['/'] + s.subrange(i + 1, s.len() as int) =~= s.subrange(start, s.len() as int));
    } else {
        lemma_join_split_from(s, start, i + 1);
    }
}

/// Joining the segments of a path with `/` gives the path back.
pub proof fn lemma_join_segments(s: Seq<char>)
    ensures
        crate::text::join_spec(segments(s), seq!['/']) == s,
{
    lemma_join_split_from(s, 0, 0);
    assert(s.subrange(0, s.len() as int) =~= s);
}

proof fn lemma_no_kept_all_ignorable(a: Seq<Seq<char>>)
    requires
        kept(a).len() == 0,
    ensures
        forall|m: int| 0 <= m < a.len() ==> ignorable(#[trigger] a[m]),
    decreases a.len(),
{
    if a.len() > 0 {
        assert(ignorable(a[0]));
        lemma_no_kept_all_ignorable(a.drop_first());
        assert forall|m: int| 0 <= m < a.len() implies ignorable(#[trigger] a[m]) by {
            if m > 0 {
                assert(a[m] == a.drop_first()[m - 1]);
            }
        }
    }
}

/// Skipping as many components as `a` holds, in `a` followed by `b`, stops
/// inside `a`, with nothing but non-components of `a` after it.
proof fn lemma_skip_own_components(a: Seq<Seq<char>>, b: Seq<Seq<char>>)
    ensures
        skip_components(a + b, kept(a).len()) <= a.len(),
        forall|m: int| skip_components(a + b, kept(a).len()) <= m < a.len() ==> ignorable(#[trigger] a[m]),
    decreases a.len(),
{
    let j = kept(a).len();
    if j == 0 {
        lemma_no_kept_all_ignorable(a);
    } else {
        let s = a + b;
        let tail = a.drop_first();
        assert(s[0] == a[0]);
        assert(s.drop_first() =~= tail + b);
        lemma_skip_own_components(tail, b);
        let n = skip_components(tail + b, kept(tail).len());
        assert(skip_components(s, j) == 1 + n);
        assert forall|m: int| 1 + n <= m < a.len() implies ignorable(#[trigger] a[m]) by {
            assert(a[m] == tail[m - 1]);
        }
    }
}

proof fn lemma_trim_front_past(p: Seq<Seq<char>>, q: Seq<Seq<char>>)
    requires
        forall|m: int| 0 <= m < p.len() ==> ignorable(#[trigger] p[m]),
    ensures
        trim_front(p + q) == trim_front(q),
    decreases p.len(),
{
    if p.len() == 0 {
        assert(p + q =~= q);
    } else {
        assert((p + q)[0] == p[0]);
        assert((p + q).drop_first() =~= p.drop_first() + q);
        assert forall|m: int| 0 <= m < p.drop_first().len() implies ignorable(#[trigger] p.drop_first()[m]) by {
            assert(p.drop_first()[m] == p[m + 1]);
        }
        lemma_trim_front_past(p.drop_first(), q);
    }
}

/// Joining a relative path onto a folder that is not empty keeps the
/// folder's root or leading `.`, and gives a body whose segments are some
/// segments with the folder's components, then those of the relative path.
proof fn lemma_join_segments_of(base: Seq<char>, r: Seq<char>) -> (a: Seq<Seq<char>>)
    requires
        base.len() > 0,
        !is_absolute(r),
    ensures
        lead_len(join_spec(base, r)) == lead_len(base),
        segments(body(join_spec(base, r))) == a + segments(r),
        kept(a) == kept(segments(body(base))),
{
    let bb = body(base);
    let c = join_spec(base, r);
    if base.last() != '/' {
        let tail = seq!['/'] + r;
        assert(c =~= base + tail);
        lemma_lead_extend(base, tail);
        assert(body(c) =~= bb + seq!['/'] + r);
        lemma_segments_concat(bb, r);
        segments(bb)
    } else {
        assert(c =~= base + r);
        assert(base[base.len() - 1] == '/');
        lemma_lead_extend(base, r);
        lemma_kept_segments_empty();
        if bb.len() == 0 {
            assert(body(c) =~= r);
            assert(bb =~= Seq::<char>::empty());
            let a = Seq::<Seq<char>>::empty();
            assert(a + segments(r) =~= segments(r));
            a
        } else {
            let d = bb.drop_last();
            assert(bb.last() == base.last());
            let e = Seq::<char>::empty();
            assert(bb =~= d + seq!['/'] + e);
            lemma_segments_concat(d, e);
            lemma_segments_concat(d, r);
            assert(body(c) =~= d + seq!['/'] + r);
            lemma_kept_concat(segments(d), segments(e));
            assert(kept(segments(d)) + Seq::<Seq<char>>::empty() =~= kept(segments(d)));
            segments(d)
        }
    }
}

/// A path stored relative to a folder, as `strip_prefix` gives it, is found
/// again below any folder that is not empty: taking that folder off the
/// path that the stored one names below it gives the stored path back.
/// This is what lets a clip library, whose clips are stored relative to it,
/// be moved.
pub proof fn law_join_then_strip_prefix(rel: Seq<char>, lib: Seq<char>)
    requires
        lib.len() > 0,
        normal_relative(rel),
    ensures
        strip_prefix_spec(join_spec(lib, rel), lib) == Some(rel),
{
    let sr = segments(rel);
    lemma_split_first(rel, 0, 0);
    if rel.len() > 0 && rel[0] == '/' {
        assert(split_from(rel, 0, 0) == seq![rel.subrange(0, 0)] + split_from(rel, 1, 1));
        assert(sr[0] =~= Seq::<char>::empty());
    }
    assert(!is_absolute(rel));
    let c = join_spec(lib, rel);
    let a = lemma_join_segments_of(lib, rel);
    lemma_join_components(lib, rel);
    let k = components(lib).len();
    let cc = components(c);
    assert(cc.take(k as int) =~= components(lib));
    let segs = segments(body(c));
    assert(k - lead_len(c) == kept(a).len());
    lemma_skip_own_components(a, sr);
    let idx = skip_components(segs, kept(a).len());
    let rest = segs.skip(idx as int);
    assert(rest =~= a.skip(idx as int) + sr);
    assert forall|m: int| 0 <= m < a.skip(idx as int).len() implies ignorable(#[trigger] a.skip(idx as int)[m]) by {
        assert(a.skip(idx as int)[m] == a[idx + m]);
    }
    lemma_trim_front_past(a.skip(idx as int), sr);
    if rel.len() == 0 {
        assert(sr == seq![rel.subrange(0, 0)]);
        assert(sr[0] =~= Seq::<char>::empty());
        assert(sr.drop_first() =~= Seq::<Seq<char>>::empty());
        assert(trim_front(sr) == trim_front(sr.drop_first()));
        assert(trim_front(sr) =~= Seq::<Seq<char>>::empty());
        assert(crate::text::join_spec(trim_back(trim_front(sr)), seq!['/']) =~= rel);
    } else {
        assert(trim_front(sr) == sr);
        assert(trim_back(sr) == sr);
        lemma_join_segments(rel);
    }
}

/// A path taken relative to a folder keeps its place when the folder moves:
/// joined onto any other folder `moved`, what `strip_prefix` left of `p`
/// names the components that followed `base` in `p`, below `moved`. This is
/// what lets a clip library, whose clips are stored relative to it, be moved.
pub proof fn law_relative_path_moves(p: Seq<char>, base: Seq<char>, moved: Seq<char>)
    requires
        base.len() > 0,
        strip_prefix_spec(p, base) is Some,
    ensures
        components(join_spec(moved, strip_prefix_spec(p, base).unwrap())) == components(moved)
            + components(p).skip(components(base).len() as int),
{
    let r = strip_prefix_spec(p, base).unwrap();
    lemma_strip_result(p, base);
    if moved.len() > 0 {
        lemma_join_components(moved, r);
    } else {
        assert(join_spec(moved, r) =~= r);
        assert(body(r) =~= r);
        lemma_kept_segments_empty();
        assert(body(moved) =~= Seq::<char>::empty());
        assert(components(moved) =~= Seq::<Seq<char>>::empty());
        assert(components(moved) + components(r) =~= components(r));
    }
}

/// The texts of a list of character vectors.
pub open spec fn texts(v: Seq<Vec<char>>) -> Seq<Seq<char>> {
    v.map_values(|x: Vec<char>| x@)
}

fn lead_of(p: &Vec<char>) -> (n: usize)
    ensures
        n == lead_len(p@),
{
    if p.len() > 0 && p[0] == '/' {
        1
    } else if p.len() > 0 && p[0] == '.' && (p.len() == 1 || p[1] == '/') {
        1
    } else {
        0
    }
}

fn is_ignorable(seg: &Vec<char>) -> (b: bool)
    ensures
        b == ignorable(seg@),
{
    let b = seg.len() == 0 || (seg.len() == 1 && seg[0] == '.');
    proof {
        if seg.len() == 1 && seg[0] == '.' {
            assert(seg@ =~= seq!['.']);
        }
        if seg@ == seq!['.'] {
            assert(seg@[0] == '.');
        }
    }
    b
}

fn chars_eq(a: &Vec<char>, b: &Vec<char>) -> (r: bool)
    ensures
        r == (a@ == b@),
{
    if a.len() != b.len() {
        return false;
    }
    let mut i: usize = 0;
    while i < a.len()
        invariant
            a@.len() == b@.len(),
            i <= a@.len(),
            forall|k: int| 0 <= k < i ==> a@[k] == b@[k],
        decreases a.len() - i,
    {
        if a[i] != b[i] {
            return false;
        }
        i = i + 1;
    }
    assert(a@ =~= b@);
    true
}

/// The segments of `s` between its `/` separators.
fn segments_of(s: &Vec<char>) -> (r: Vec<Vec<char>>)
    ensures
        texts(r@) == segments(s@),
{
    let mut out: Vec<Vec<char>> = Vec::new();
    let mut cur: Vec<char> = Vec::new();
    let ghost mut start: int = 0;
    let mut i: usize = 0;
    assert(texts(out@) =~= Seq::<Seq<char>>::empty());
    while i < s.len()
        invariant
            0 <= start <= i <= s@.len(),
            cur@ == s@.subrange(start, i as int),
            segments(s@) == texts(out@) + split_from(s@, start, i as int),
        decreases s.len() - i,
    {
        if s[i] == '/' {
            let ghost before = texts(out@);
            let ghost seg = s@.subrange(start, i as int);
            out.push(cur);
            cur = Vec::new();
            proof {
                assert(texts(out@) =~= before + seq![seg]);
                assert(before + (seq![seg] + split_from(s@, i + 1, i + 1)) =~= (before + seq![seg])
                    + split_from(s@, i + 1, i + 1));
                start = i + 1;
            }
            assert(cur@ =~= s@.subrange(start, i + 1));
        } else {
            cur.push(s[i]);
            assert(cur@ =~= s@.subrange(start, i + 1));
        }
        i = i + 1;
    }
    let ghost before = texts(out@);
    out.push(cur);
    assert(texts(out@) =~= before + seq![s@.subrange(start, s@.len() as int)]);
    out
}

/// Appends to `out` the segments of `segs` that are components.
fn push_kept(segs: &Vec<Vec<char>>, out: &mut Vec<Vec<char>>)
    ensures
        texts(final(out)@) == texts(old(out)@) + kept(texts(segs@)),
{
    let ghost init = texts(out@);
    let ghost all = texts(segs@);
    let mut i: usize = 0;
    assert(all.skip(0) =~= all);
    assert(init + kept(all) =~= init + kept(all.skip(0)));
    while i < segs.len()
        invariant
            i <= segs@.len(),
            all == texts(segs@),
            init + kept(all) == texts(out@) + kept(all.skip(i as int)),
        decreases segs.len() - i,
    {
        let ghost rest = all.skip(i as int);
        assert(rest.drop_first() =~= all.skip(i + 1));
        assert(rest[0] == segs@[i as int]@);
        if !is_ignorable(&segs[i]) {
            let c = crate::text::slice_chars(&segs[i], 0, segs[i].len());
            assert(c@ =~= segs@[i as int]@);
            let ghost before = texts(out@);
            out.push(c);
            assert(texts(out@) =~= before + seq![c@]);
            assert(before + (seq![c@] + kept(all.skip(i + 1))) =~= (before + seq![c@]) + kept(
                all.skip(i + 1),
            ));
        }
        i = i + 1;
    }
    assert(all.skip(segs@.len() as int) =~= Seq::<Seq<char>>::empty());
    assert(texts(out@) + Seq::<Seq<char>>::empty() =~= texts(out@));
}

/// The components of `p` (see [`components`]).
fn components_of(p: &Vec<char>) -> (r: Vec<Vec<char>>)
    ensures
        texts(r@) == components(p@),
{
    let lead = lead_of(p);
    let b = crate::text::slice_chars(p, lead, p.len());
    assert(b@ =~= body(p@));
    let segs = segments_of(&b);
    let mut out: Vec<Vec<char>> = Vec::new();
    if lead == 1 {
        let first = crate::text::slice_chars(p, 0, 1);
        out.push(first);
        assert(texts(out@) =~= seq![p@.take(1)]);
    } else {
        assert(texts(out@) =~= Seq::<Seq<char>>::empty());
    }
    push_kept(&segs, &mut out);
    proof {
        if lead != 1 {
            assert(Seq::<Seq<char>>::empty() + kept(segments(body(p@))) =~= kept(segments(body(p@))));
        }
    }
    out
}

/// Whether the texts of `part` begin the texts of `whole`.
fn begins_with(whole: &Vec<Vec<char>>, part: &Vec<Vec<char>>) -> (r: bool)
    ensures
        r == (part@.len() <= whole@.len() && texts(whole@).take(part@.len() as int) == texts(
            part@,
        )),
{
    if part.len() > whole.len() {
        return false;
    }
    let mut i: usize = 0;
    while i < part.len()
        invariant
            part@.len() <= whole@.len(),
            i <= part@.len(),
            forall|k: int| 0 <= k < i ==> whole@[k]@ == part@[k]@,
        decreases part.len() - i,
    {
        if !chars_eq(&whole[i], &part[i]) {
            assert(texts(whole@).take(part@.len() as int)[i as int] == whole@[i as int]@);
            assert(texts(part@)[i as int] == part@[i as int]@);
            return false;
        }
        i = i + 1;
    }
    assert(texts(whole@).take(part@.len() as int) =~= texts(part@));
    true
}

/// `segs[lo..hi]` joined with `/`.
fn join_range(segs: &Vec<Vec<char>>, lo: usize, hi: usize) -> (r: Vec<char>)
    requires
        lo <= hi <= segs@.len(),
    ensures
        r@ == crate::text::join_spec(texts(segs@).subrange(lo as int, hi as int), seq!['/']),
{
    let mut r: Vec<char> = Vec::new();
    let mut i: usize = lo;
    assert(texts(segs@).subrange(lo as int, lo as int) =~= Seq::<Seq<char>>::empty());
    while i < hi
        invariant
            lo <= i <= hi <= segs@.len(),
            r@ == crate::text::join_spec(texts(segs@).subrange(lo as int, i as int), seq!['/']),
        decreases hi - i,
    {
        let ghost before = texts(segs@).subrange(lo as int, i as int);
        let ghost r0 = r@;
        if i > lo {
            r.push('/');
        }
        crate::text::extend_chars(&mut r, segs[i].as_slice());
        i = i + 1;
        proof {
            let now = texts(segs@).subrange(lo as int, i as int);
            assert(now.drop_last() =~= before);
            assert(now.last() == segs@[i - 1]@);
            if i == lo + 1 {
                assert(now.len() == 1);
                assert(r@ =~= now[0]);
            } else {
                assert(r@ =~= r0 + seq!['/'] + now.last());
            }
        }
    }
    r
}

/// Index just past the `j`-th component of `segs`.
fn skip_index(segs: &Vec<Vec<char>>, j: usize) -> (idx: usize)
    ensures
        idx == skip_components(texts(segs@), j as nat),
{
    let ghost all = texts(segs@);
    let mut idx: usize = 0;
    let mut left: usize = j;
    assert(all.skip(0) =~= all);
    while left > 0 && idx < segs.len()
        invariant
            idx <= segs@.len(),
            all == texts(segs@),
            skip_components(all, j as nat) == idx + skip_components(all.skip(idx as int), left as nat),
        decreases segs.len() - idx,
    {
        let ghost rest = all.skip(idx as int);
        assert(rest.drop_first() =~= all.skip(idx + 1));
        assert(rest[0] == segs@[idx as int]@);
        if !is_ignorable(&segs[idx]) {
            left = left - 1;
        }
        idx = idx + 1;
    }
    idx
}

/// The first index from `from` on that holds a component (or the length).
fn first_kept_from(segs: &Vec<Vec<char>>, from: usize) -> (lo: usize)
    requires
        from <= segs@.len(),
    ensures
        from <= lo <= segs@.len(),
        texts(segs@).subrange(lo as int, segs@.len() as int) == trim_front(texts(segs@).skip(from as int)),
{
    let ghost all = texts(segs@);
    let mut lo: usize = from;
    while lo < segs.len() && is_ignorable(&segs[lo])
        invariant
            from <= lo <= segs@.len(),
            all == texts(segs@),
            trim_front(all.skip(from as int)) == trim_front(all.skip(lo as int)),
        decreases segs.len() - lo,
    {
        assert(all.skip(lo as int).drop_first() =~= all.skip(lo + 1));
        assert(all.skip(lo as int)[0] == segs@[lo as int]@);
        lo = lo + 1;
    }
    assert(all.skip(lo as int) =~= all.subrange(lo as int, segs@.len() as int));
    if lo < segs.len() {
        assert(all.skip(lo as int)[0] == segs@[lo as int]@);
    }
    lo
}

/// The end of the last component in `segs[lo..]` (or `lo` when there is none).
fn last_kept_end(segs: &Vec<Vec<char>>, lo: usize) -> (hi: usize)
    requires
        lo <= segs@.len(),
    ensures
        lo <= hi <= segs@.len(),
        texts(segs@).subrange(lo as int, hi as int) == trim_back(
            texts(segs@).subrange(lo as int, segs@.len() as int),
        ),
{
    let ghost all = texts(segs@);
    let mut hi: usize = segs.len();
    while hi > lo && is_ignorable(&segs[hi - 1])
        invariant
            lo <= hi <= segs@.len(),
            all == texts(segs@),
            trim_back(all.subrange(lo as int, segs@.len() as int)) == trim_back(
                all.subrange(lo as int, hi as int),
            ),
        decreases hi,
    {
        assert(all.subrange(lo as int, hi as int).drop_last() =~= all.subrange(lo as int, hi - 1));
        assert(all.subrange(lo as int, hi as int).last() == segs@[hi - 1]@);
        hi = hi - 1;
    }
    if hi > lo {
        assert(all.subrange(lo as int, hi as int).last() == segs@[hi - 1]@);
    } else {
        assert(all.subrange(lo as int, hi as int) =~= Seq::<Seq<char>>::empty());
    }
    hi
}

/// `path` with the folder `base` taken off its front, as `Path::strip_prefix`
/// does on Unix; `None` when the components of `base` do not begin those of
/// `path`.
pub fn strip_prefix(path: &str, base: &str) -> (r: Option<String>)
    ensures
        match r {
            Some(s) => strip_prefix_spec(path@, base@) == Some(s@),
            None => strip_prefix_spec(path@, base@) is None,
        },
{
    let p = crate::text::chars_of(path);
    let b = crate::text::chars_of(base);
    let lead = lead_of(&p);
    let pb = crate::text::slice_chars(&p, lead, p.len());
    assert(pb@ =~= body(p@));
    let segs = segments_of(&pb);
    if b.len() == 0 {
        let hi = last_kept_end(&segs, 0);
        assert(texts(segs@).subrange(0, segs@.len() as int) =~= texts(segs@));
        let mut out = crate::text::slice_chars(&p, 0, lead);
        let joined = join_range(&segs, 0, hi);
        crate::text::extend_chars(&mut out, joined.as_slice());
        assert(out@ =~= p@.take(lead as int) + joined@);
        return Some(crate::text::string_from_chars(out.as_slice()));
    }
    let cp = components_of(&p);
    let cb = components_of(&b);
    if !begins_with(&cp, &cb) {
        return None;
    }
    proof {
        lemma_components_nonempty(b@);
    }
    let j = cb.len() - lead;
    let idx = skip_index(&segs, j);
    proof {
        let cpv = components(p@);
        assert(kept(segments(body(p@))).len() == cpv.len() - lead);
        lemma_kept_skip(segments(body(p@)), j as nat);
    }
    let lo = first_kept_from(&segs, idx);
    let hi = last_kept_end(&segs, lo);
    let out = join_range(&segs, lo, hi);
    Some(crate::text::string_from_chars(out.as_slice()))
}

/// Why the URI of a chosen file gives no path.
#[derive(Debug, Clone, Copy, PartialEq, Eq, Structural)]
pub enum UriProblem {
    /// the text is not a URL
    Invalid,
    /// the URL names no local file
    NotAFile,
}

impl UriProblem {
    /// The error's text.
    pub fn message(&self) -> (s: &'static str)
        ensures
            s@ == match self {
                UriProblem::Invalid => "invalid uri"@,
                UriProblem::NotAFile => "invalid file uri"@,
            },
    {
        match self {
            UriProblem::Invalid => "invalid uri",
            UriProblem::NotAFile => "invalid file uri",
        }
    }
}

/// Whether `url::Url::parse` accepts `uri`.
pub uninterp spec fn uri_parses(uri: Seq<char>) -> bool;

/// Whether `Url::to_file_path` gives a path for the URL parsed from `uri`.
pub uninterp spec fn uri_names_file(uri: Seq<char>) -> bool;

/// The bytes of the path that `Url::to_file_path` gives for the URL parsed
/// from `uri`, when it gives one: the percent-decoded path segments, each
/// after a `/`, as the operating system takes a path.
pub uninterp spec fn uri_file_path(uri: Seq<char>) -> Seq<u8>;

/// Calls `url::Url::parse` on `uri` and `Url::to_file_path` on the URL it
/// gives, and hands back the path's bytes (`as_encoded_bytes`, which on Unix
/// are the bytes the operating system takes). The url crate fails
/// `to_file_path` for a URL without path segments, or whose host is neither
/// empty nor `localhost`; what each call gives is named, not spelled out.
#[verifier::external_body]
fn file_path_of_uri(uri: &str) -> (r: Result<Vec<u8>, UriProblem>)
    ensures
        (r matches Err(e) && e == UriProblem::Invalid) <==> !uri_parses(uri@),
        (r matches Err(e) && e == UriProblem::NotAFile) <==> (uri_parses(uri@) && !uri_names_file(uri@)),
        r matches Ok(p) ==> uri_parses(uri@) && uri_names_file(uri@) && p@ == uri_file_path(uri@),
{
    match url::Url::parse(uri) {
        Err(_) => Err(UriProblem::Invalid),
        Ok(u) => match u.to_file_path() {
            Err(()) => Err(UriProblem::NotAFile),
            Ok(p) => Ok(p.as_os_str().as_encoded_bytes().to_vec()),
        },
    }
}

/// The path (as bytes) of one chosen file's URI, or why it has none.
pub open spec fn uri_path_spec(uri: Seq<char>) -> Result<Seq<u8>, UriProblem> {
    if !uri_parses(uri) {
        Err(UriProblem::Invalid)
    } else if !uri_names_file(uri) {
        Err(UriProblem::NotAFile)
    } else {
        Ok(uri_file_path(uri))
    }
}

/// The index of the first URI in `uris` that gives no path, if any.
pub open spec fn first_bad_uri(uris: Seq<Seq<char>>) -> Option<int>
    decreases uris.len(),
{
    if uris.len() == 0 {
        None
    } else if uri_path_spec(uris[0]) is Err {
        Some(0)
    } else {
        match first_bad_uri(uris.drop_first()) {
            Some(i) => Some(i + 1),
            None => None,
        }
    }
}

/// The paths (as the operating system's bytes) of the files that a file
/// chooser returned as URIs, in order; the problem of the first URI that
/// names no local file, if one does.
pub fn uri_paths(uris: &Vec<String>) -> (r: Result<Vec<Vec<u8>>, UriProblem>)
    ensures
        match first_bad_uri(crate::text::views(uris@)) {
            Some(i) => r == Err::<Vec<Vec<u8>>, UriProblem>(uri_path_spec(uris@[i]@)->Err_0),
            None => r matches Ok(ps) && ps@.len() == uris@.len() && forall|k: int|
                0 <= k < uris@.len() ==> uri_path_spec(uris@[k]@) == Ok::<Seq<u8>, UriProblem>(
                    #[trigger] ps@[k]@,
                ),
        },
{
    let ghost all = crate::text::views(uris@);
    let mut out: Vec<Vec<u8>> = Vec::new();
    let mut i: usize = 0;
    assert(all.skip(0) =~= all);
    while i < uris.len()
        invariant
            i <= uris@.len(),
            all == crate::text::views(uris@),
            out@.len() == i,
            forall|k: int| 0 <= k < i ==> uri_path_spec(uris@[k]@) == Ok::<Seq<u8>, UriProblem>(
                #[trigger] out@[k]@,
            ),
            first_bad_uri(all) == match first_bad_uri(all.skip(i as int)) {
                Some(b) => Some(b + i),
                None => None,
            },
        decreases uris.len() - i,
    {
        let ghost rest = all.skip(i as int);
        assert(rest.drop_first() =~= all.skip(i + 1));
        assert(rest[0] == uris@[i as int]@);
        match file_path_of_uri(uris[i].as_str()) {
            Err(e) => {
                assert(first_bad_uri(rest) == Some(0int));
                return Err(e);
            },
            Ok(p) => {
                out.push(p);
            },
        }
        i = i + 1;
    }
    assert(all.skip(i as int).len() == 0);
    Ok(out)
}

/// The serialization of the `file://` URL that `url::Url::from_file_path`
/// builds from an absolute Unix path.
pub uninterp spec fn file_url(path: Seq<char>) -> Seq<char>;

/// Calls `url::Url::from_file_path` and serializes the URL. The url crate
/// returns an error exactly when the path is not absolute (on Unix: does not
/// start with `/`); otherwise the text is the URL's serialization, which is
/// given a name here and not spelled out (it percent-encodes each path
/// component after `file://`).
#[verifier::external_body]
pub(crate) fn file_url_of(path: &str) -> (r: Result<String, ()>)
    ensures
        r is Ok <==> is_absolute(path@),
        r matches Ok(u) ==> u@ == file_url(path@),
{
    url::Url::from_file_path(std::path::Path::new(path)).map(|u| u.into())
}

} // verus!
