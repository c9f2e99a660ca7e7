//! Verified string helpers used by the services: token extraction,
//! comma-joined list columns and message building.

use vstd::prelude::*;

verus! {

/// `String::push` (std) appends `ch` at the end of the string, as its
/// documentation says; nothing else is claimed.
pub assume_specification[ String::push ](s: &mut String, ch: char)
    ensures
        final(s)@ == old(s)@.push(ch),
;

/// The characters of `s`, in order, as a vector.
pub fn chars_of(s: &str) -> (v: Vec<char>)
    ensures
        v@ == s@,
{
    let n = s.unicode_len();
    let mut v: Vec<char> = Vec::new();
    let mut i: usize = 0;
    while i < n
        invariant
            n == s@.len(),
            i <= n,
            v@ == s@.take(i as int),
        decreases n - i,
    {
        let c = s.get_char(i);
        v.push(c);
        i = i + 1;
        assert(v@ =~= s@.take(i as int));
    }
    assert(s@.take(n as int) =~= s@);
    v
}

/// Appends the characters `v[from..to]` to `out`.
pub fn push_range(out: &mut String, v: &Vec<char>, from: usize, to: usize)
    requires
        from <= to <= v@.len(),
    ensures
        final(out)@ == old(out)@ + v@.subrange(from as int, to as int),
{
    let mut i = from;
    while i < to
        invariant
            from <= i <= to <= v@.len(),
            out@ == old(out)@ + v@.subrange(from as int, i as int),
        decreases to - i,
    {
        out.push(v[i]);
        i = i + 1;
        assert(out@ =~= old(out)@ + v@.subrange(from as int, i as int));
    }
}

/// Whether two strings hold the same characters.
pub fn str_eq(a: &str, b: &str) -> (r: bool)
    ensures
        r == (a@ == b@),
{
    let x = a.to_owned();
    let y = b.to_owned();
    x == y
}

/// The result of replacing, from left to right, every non-overlapping
/// occurrence of `pat` in `s` by `rep`.
pub open spec fn replace_all(s: Seq<char>, pat: Seq<char>, rep: Seq<char>) -> Seq<char>
    decreases s.len(),
{
    if pat.len() == 0 || s.len() < pat.len() {
        s
    } else if s.take(pat.len() as int) == pat {
        rep + replace_all(s.skip(pat.len() as int), pat, rep)
    } else {
        seq![s[0]] + replace_all(s.skip(1), pat, rep)
    }
}

/// Unicode `White_Space` characters.
pub open spec fn is_white_space(c: char) -> bool {
    let u = c as u32;
    ||| 0x9 <= u <= 0xD
    ||| u == 0x20
    ||| u == 0x85
    ||| u == 0xA0
    ||| u == 0x1680
    ||| 0x2000 <= u <= 0x200A
    ||| u == 0x2028
    ||| u == 0x2029
    ||| u == 0x202F
    ||| u == 0x205F
    ||| u == 0x3000
}

pub fn char_is_white_space(c: char) -> (r: bool)
    ensures
        r == is_white_space(c),
{
    let u = c as u32;
    (0x9 <= u && u <= 0xD) || u == 0x20 || u == 0x85 || u == 0xA0 || u == 0x1680 || (0x2000 <= u
        && u <= 0x200A) || u == 0x2028 || u == 0x2029 || u == 0x202F || u == 0x205F || u == 0x3000
}

/// `s` without its leading white space.
pub open spec fn trim_start(s: Seq<char>) -> Seq<char>
    decreases s.len(),
{
    if s.len() > 0 && is_white_space(s[0]) {
        trim_start(s.skip(1))
    } else {
        s
    }
}

/// `s` without its trailing white space.
pub open spec fn trim_end(s: Seq<char>) -> Seq<char>
    decreases s.len(),
{
    if s.len() > 0 && is_white_space(s.last()) {
        trim_end(s.drop_last())
    } else {
        s
    }
}

/// `s` without leading and trailing white space.
pub open spec fn trim(s: Seq<char>) -> Seq<char> {
    trim_end(trim_start(s))
}

proof fn lemma_trim_start(s: Seq<char>, a: int)
    requires
        0 <= a <= s.len(),
        forall|j: int| 0 <= j < a ==> is_white_space(#[trigger] s[j]),
        a == s.len() || !is_white_space(s[a]),
    ensures
        trim_start(s) == s.skip(a),
    decreases a,
{
    if a == 0 {
        assert(s.skip(0) =~= s);
    } else {
        let t = s.skip(1);
        assert forall|j: int| 0 <= j < a - 1 implies is_white_space(#[trigger] t[j]) by {
            assert(t[j] == s[j + 1]);
        }
        if a - 1 < t.len() {
            assert(t[a - 1] == s[a]);
        }
        lemma_trim_start(t, a - 1);
        assert(t.skip(a - 1) =~= s.skip(a));
    }
}

proof fn lemma_trim_end(s: Seq<char>, b: int)
    requires
        0 <= b <= s.len(),
        forall|j: int| b <= j < s.len() ==> is_white_space(#[trigger] s[j]),
        b == 0 || !is_white_space(s[b - 1]),
    ensures
        trim_end(s) == s.take(b),
    decreases s.len() - b,
{
    if b == s.len() {
        assert(s.take(b) =~= s);
    } else {
        let t = s.drop_last();
        assert forall|j: int| b <= j < t.len() implies is_white_space(#[trigger] t[j]) by {
            assert(t[j] == s[j]);
        }
        if b > 0 {
            assert(t[b - 1] == s[b - 1]);
        }
        lemma_trim_end(t, b);
        assert(t.take(b) =~= s.take(b));
    }
}

/// Whether `v[at..at + pat.len()]` equals `pat`.
fn occurs_at(v: &Vec<char>, at: usize, pat: &Vec<char>) -> (r: bool)
    requires
        at + pat@.len() <= v@.len(),
    ensures
        r == (v@.subrange(at as int, at + pat@.len()) == pat@),
{
    let mut k: usize = 0;
    while k < pat.len()
        invariant
            at + pat@.len() <= v@.len(),
            v@.len() == v.len(),
            k <= pat@.len(),
            forall|j: int| 0 <= j < k ==> v@[at + j] == pat@[j],
        decreases pat@.len() - k,
    {
        if v[at + k] != pat[k] {
            assert(v@.subrange(at as int, at + pat@.len())[k as int] != pat@[k as int]);
            return false;
        }
        k = k + 1;
    }
    assert(v@.subrange(at as int, at + pat@.len()) =~= pat@);
    true
}

/// Replaces every occurrence of `pat` in `s` by `rep`, scanning from the left.
pub fn replace_all_exec(s: &str, pat: &str, rep: &str) -> (r: String)
    requires
        pat@.len() > 0,
    ensures
        r@ == replace_all(s@, pat@, rep@),
{
    let v = chars_of(s);
    let p = chars_of(pat);
    let n = v.len();
    let plen = p.len();
    let mut out = String::new();
    let mut i: usize = 0;
    assert(v@.skip(0) =~= v@);
    while i < n
        invariant
            v@ == s@,
            p@ == pat@,
            n == v@.len(),
            plen == p@.len(),
            plen > 0,
            i <= n,
            out@ + replace_all(v@.skip(i as int), p@, rep@) == replace_all(v@, p@, rep@),
        decreases n - i,
    {
        let ghost rest = v@.skip(i as int);
        if plen <= n - i && occurs_at(&v, i, &p) {
            assert(rest.take(plen as int) =~= v@.subrange(i as int, i + plen));
            assert(rest.skip(plen as int) =~= v@.skip(i + plen));
            out.append(rep);
            i = i + plen;
        } else {
            if plen <= n - i {
                assert(rest.take(plen as int) =~= v@.subrange(i as int, i + plen));
                assert(rest.skip(1) =~= v@.skip(i + 1));
                out.push(v[i]);
                i = i + 1;
            } else {
                push_range(&mut out, &v, i, n);
                assert(v@.subrange(i as int, n as int) =~= rest);
                i = n;
            }
        }
    }
    assert(v@.skip(n as int) =~= Seq::<char>::empty());
    out
}

/// `s` with leading and trailing white space removed.
pub fn trim_exec(s: &str) -> (r: String)
    ensures
        r@ == trim(s@),
{
    let v = chars_of(s);
    let n = v.len();
    let mut a: usize = 0;
    while a < n && char_is_white_space(v[a])
        invariant
            v@ == s@,
            n == v@.len(),
            a <= n,
            forall|j: int| 0 <= j < a ==> is_white_space(#[trigger] v@[j]),
        decreases n - a,
    {
        a = a + 1;
    }
    proof {
        lemma_trim_start(s@, a as int);
    }
    let mut b: usize = n;
    while b > a && char_is_white_space(v[b - 1])
        invariant
            v@ == s@,
            n == v@.len(),
            a <= b <= n,
            forall|j: int| b <= j < n ==> is_white_space(#[trigger] v@[j]),
        decreases b - a,
    {
        b = b - 1;
    }
    let ghost t = s@.skip(a as int);
    proof {
        assert forall|j: int| b - a <= j < t.len() implies is_white_space(#[trigger] t[j]) by {
            assert(t[j] == v@[a + j]);
        }
        if b > a {
            assert(t[b - a - 1] == v@[b - 1]);
        }
        lemma_trim_end(t, b - a);
        assert(t.take(b - a) =~= v@.subrange(a as int, b as int));
    }
    let mut out = String::new();
    push_range(&mut out, &v, a, b);
    assert(out@ =~= v@.subrange(a as int, b as int));
    out
}

/// The pieces of `s` between occurrences of `sep` (one piece more than there
/// are separators; an empty string gives one empty piece).
pub open spec fn split_on(s: Seq<char>, sep: char) -> Seq<Seq<char>>
    decreases s.len(),
{
    if s.len() == 0 {
        seq![Seq::<char>::empty()]
    } else {
        let prev = split_on(s.drop_last(), sep);
        if s.last() == sep {
            prev.push(Seq::<char>::empty())
        } else {
            prev.update(prev.len() - 1, prev.last().push(s.last()))
        }
    }
}

/// The pieces concatenated with `sep` between neighbours.
pub open spec fn join_with(xs: Seq<Seq<char>>, sep: char) -> Seq<char>
    decreases xs.len(),
{
    if xs.len() == 0 {
        Seq::<char>::empty()
    } else if xs.len() == 1 {
        xs[0]
    } else {
        join_with(xs.drop_last(), sep) + seq![sep] + xs.last()
    }
}

pub proof fn lemma_split_on_nonempty(s: Seq<char>, sep: char)
    ensures
        split_on(s, sep).len() >= 1,
    decreases s.len(),
{
    if s.len() > 0 {
        lemma_split_on_nonempty(s.drop_last(), sep);
    }
}

proof fn lemma_join_extend_last(xs: Seq<Seq<char>>, sep: char, c: char)
    requires
        xs.len() >= 1,
    ensures
        join_with(xs.update(xs.len() - 1, xs.last().push(c)), sep) == join_with(xs, sep).push(c),
{
    let ys = xs.update(xs.len() - 1, xs.last().push(c));
    if xs.len() == 1 {
    } else {
        assert(ys.drop_last() =~= xs.drop_last());
        assert(join_with(ys, sep) =~= join_with(xs, sep).push(c));
    }
}

/// Splitting a joined list gives the joined text back.
pub proof fn lemma_join_split(s: Seq<char>, sep: char)
    ensures
        join_with(split_on(s, sep), sep) == s,
    decreases s.len(),
{
    if s.len() > 0 {
        let t = s.drop_last();
        lemma_join_split(t, sep);
        lemma_split_on_nonempty(t, sep);
        let prev = split_on(t, sep);
        if s.last() == sep {
            let ys = prev.push(Seq::<char>::empty());
            assert(ys.drop_last() =~= prev);
            assert(join_with(ys, sep) =~= s);
        } else {
            lemma_join_extend_last(prev, sep, s.last());
            assert(t.push(s.last()) =~= s);
        }
    }
}

/// Splitting `a`, a separator and then `b` (which holds no separator) adds
/// `b` as a last piece to the pieces of `a`.
proof fn lemma_split_append(a: Seq<char>, sep: char, b: Seq<char>)
    requires
        !b.contains(sep),
    ensures
        split_on(a + seq![sep] + b, sep) == split_on(a, sep).push(b),
    decreases b.len(),
{
    if b.len() == 0 {
        let w = a + seq![sep] + b;
        assert(w.drop_last() =~= a);
        assert(w.last() == sep);
        assert(split_on(w, sep) == split_on(w.drop_last(), sep).push(Seq::<char>::empty()));
        assert(b =~= Seq::<char>::empty());
    } else {
        let b0 = b.drop_last();
        assert forall|c: char| b0.contains(c) implies b.contains(c) by {
            let k = choose|k: int| 0 <= k < b0.len() && b0[k] == c;
            assert(b[k] == c);
        }
        lemma_split_append(a, sep, b0);
        let whole = a + seq![sep] + b;
        assert(whole.drop_last() =~= a + seq![sep] + b0);
        assert(whole.last() == b.last());
        assert(b.last() != sep) by {
            if b.last() == sep {
                assert(b.contains(sep));
            }
        }
        let prev = split_on(a, sep).push(b0);
        assert(prev.update(prev.len() - 1, prev.last().push(b.last())) =~= split_on(a, sep).push(b)) by {
            assert(b0.push(b.last()) =~= b);
        }
    }
}

/// Joining pieces that hold no separator and splitting the result gives the
/// pieces back, for at least one piece.
pub proof fn lemma_split_join(xs: Seq<Seq<char>>, sep: char)
    requires
        xs.len() >= 1,
        forall|i: int| 0 <= i < xs.len() ==> !(#[trigger] xs[i]).contains(sep),
    ensures
        split_on(join_with(xs, sep), sep) == xs,
    decreases xs.len(),
{
    if xs.len() == 1 {
        lemma_split_append_none(xs[0], sep);
        assert(seq![xs[0]] =~= xs);
    } else {
        let init = xs.drop_last();
        assert forall|i: int| 0 <= i < init.len() implies !(#[trigger] init[i]).contains(sep) by {
            assert(init[i] == xs[i]);
        }
        lemma_split_join(init, sep);
        assert(!xs.last().contains(sep)) by {
            assert(xs.last() == xs[xs.len() - 1]);
        }
        lemma_split_append(join_with(init, sep), sep, xs.last());
        assert(init.push(xs.last()) =~= xs);
    }
}

/// A text without separators is one piece.
proof fn lemma_split_append_none(b: Seq<char>, sep: char)
    requires
        !b.contains(sep),
    ensures
        split_on(b, sep) == seq![b],
    decreases b.len(),
{
    if b.len() > 0 {
        let b0 = b.drop_last();
        assert forall|c: char| b0.contains(c) implies b.contains(c) by {
            let k = choose|k: int| 0 <= k < b0.len() && b0[k] == c;
            assert(b[k] == c);
        }
        lemma_split_append_none(b0, sep);
        assert(b.last() != sep) by {
            if b.last() == sep {
                assert(b.contains(sep));
            }
        }
        let prev = split_on(b.drop_last(), sep);
        assert(prev == seq![b0]);
        assert(split_on(b, sep) == prev.update(prev.len() - 1, prev.last().push(b.last())));
        assert(seq![b0].update(0, b0.push(b.last())) =~= seq![b]) by {
            assert(b0.push(b.last()) =~= b);
        }
    } else {
        assert(b =~= Seq::<char>::empty());
    }
}

/// The pieces of `s` between occurrences of `sep`.
pub fn split_exec(s: &str, sep: char) -> (pieces: Vec<String>)
    ensures
        pieces.deep_view() == split_on(s@, sep),
{
    let v = chars_of(s);
    let n = v.len();
    let mut pieces: Vec<String> = Vec::new();
    let mut cur = String::new();
    let mut i: usize = 0;
    assert(v@.take(0) =~= Seq::<char>::empty());
    assert(pieces.deep_view().push(cur@) =~= split_on(Seq::<char>::empty(), sep));
    while i < n
        invariant
            v@ == s@,
            n == v@.len(),
            i <= n,
            pieces.deep_view().push(cur@) == split_on(v@.take(i as int), sep),
        decreases n - i,
    {
        let c = v[i];
        let ghost before = pieces.deep_view().push(cur@);
        assert(v@.take(i + 1).drop_last() =~= v@.take(i as int));
        assert(v@.take(i + 1).last() == c);
        if c == sep {
            pieces.push(cur);
            cur = String::new();
            assert(pieces.deep_view().push(cur@) =~= before.push(Seq::<char>::empty()));
        } else {
            cur.push(c);
            assert(pieces.deep_view().push(cur@) =~= before.update(
                before.len() - 1,
                before.last().push(c),
            ));
        }
        i = i + 1;
    }
    assert(v@.take(n as int) =~= v@);
    pieces.push(cur);
    pieces
}

/// The strings of `xs` concatenated with `sep` between neighbours.
pub fn join_exec(xs: &Vec<String>, sep: char) -> (r: String)
    ensures
        r@ == join_with(xs.deep_view(), sep),
{
    let mut out = String::new();
    let mut i: usize = 0;
    while i < xs.len()
        invariant
            i <= xs@.len(),
            out@ == join_with(xs.deep_view().take(i as int), sep),
        decreases xs@.len() - i,
    {
        let ghost pre = xs.deep_view().take(i as int);
        let ghost post = xs.deep_view().take(i + 1);
        assert(post.drop_last() =~= pre);
        if i > 0 {
            out.push(sep);
        }
        out.append(xs[i].as_str());
        i = i + 1;
        assert(out@ =~= join_with(post, sep));
    }
    assert(xs.deep_view().take(xs@.len() as int) =~= xs.deep_view());
    out
}

/// `pat` does not occur anywhere in `s`.
pub open spec fn occurs_nowhere(s: Seq<char>, pat: Seq<char>) -> bool {
    forall|i: int| 0 <= i && i + pat.len() <= s.len() ==> #[trigger] s.subrange(i, i + pat.len()) != pat
}

/// Replacing a pattern that does not occur changes nothing.
pub proof fn lemma_replace_absent(s: Seq<char>, pat: Seq<char>, rep: Seq<char>)
    requires
        pat.len() > 0,
        occurs_nowhere(s, pat),
    ensures
        replace_all(s, pat, rep) == s,
    decreases s.len(),
{
    if s.len() >= pat.len() {
        assert(s.take(pat.len() as int) =~= s.subrange(0, pat.len() as int));
        assert(s.subrange(0, 0 + pat.len() as int) != pat);
        let t = s.skip(1);
        assert forall|i: int| 0 <= i && i + pat.len() <= t.len() implies #[trigger] t.subrange(i, i + pat.len()) != pat by {
            assert(t.subrange(i, i + pat.len()) =~= s.subrange(i + 1, i + 1 + pat.len()));
        }
        lemma_replace_absent(t, pat, rep);
        assert(seq![s[0]] + t =~= s);
    }
}

/// A text that starts with the pattern has it replaced first.
pub proof fn lemma_replace_leading(pat: Seq<char>, s: Seq<char>, rep: Seq<char>)
    requires
        pat.len() > 0,
    ensures
        replace_all(pat + s, pat, rep) == rep + replace_all(s, pat, rep),
{
    let w = pat + s;
    assert(w.take(pat.len() as int) =~= pat);
    assert(w.skip(pat.len() as int) =~= s);
}

/// Trimming a text that has no white space at either end changes nothing,
/// and neither does white space put before it.
pub proof fn lemma_trim_padded(c: char, t: Seq<char>)
    requires
        is_white_space(c),
        t.len() == 0 || (!is_white_space(t[0]) && !is_white_space(t.last())),
    ensures
        trim(seq![c] + t) == t,
{
    let w = seq![c] + t;
    assert(w.skip(1) =~= t);
    assert(trim_start(w) == trim_start(t));
    if t.len() == 0 {
        assert(trim_start(t) == t);
    } else {
        assert(trim_start(t) == t);
        assert(trim_end(t) == t);
    }
}

} // verus!
