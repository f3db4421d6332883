//! Text as a sequence of characters, split into lines and joined back.

use vstd::prelude::*;
use vstd::relations::{sorted_by, total_ordering};

verus! {

/// Relies on `String::push`: appends one character at the end.
#[verifier::external_body]
fn push_char(s: &mut String, c: char)
    ensures
        final(s)@ == old(s)@.push(c),
{
    s.push(c);
}

/// The characters of `s`, in order.
pub fn chars_of(s: &str) -> (r: Vec<char>)
    ensures
        r@ == s@,
{
    let mut r: Vec<char> = Vec::new();
    for c in it: s.chars()
        invariant
            r@ == it.seq().take(it.index() as int),
    {
        r.push(c);
    }
    r
}

/// The string made of the characters of `v`.
pub fn string_of(v: &Vec<char>) -> (r: String)
    ensures
        r@ == v@,
{
    let mut r = String::new();
    let mut i: usize = 0;
    while i < v.len()
        invariant
            i <= v.len(),
            r@ == v@.take(i as int),
        decreases v.len() - i,
    {
        push_char(&mut r, v[i]);
        proof {
            assert(v@.take(i as int).push(v@[i as int]) =~= v@.take(i + 1));
        }
        i = i + 1;
    }
    proof {
        assert(v@.take(v.len() as int) =~= v@);
    }
    r
}


/// The views of a sequence of character vectors.
pub open spec fn views(ls: Seq<Vec<char>>) -> Seq<Seq<char>> {
    ls.map_values(|l: Vec<char>| l@)
}

/// Position of the first `c` in `t`, or `t.len()` when there is none.
pub open spec fn first_index_of(t: Seq<char>, c: char) -> nat
    decreases t.len(),
{
    if t.len() == 0 {
        0
    } else if t[0] == c {
        0
    } else {
        1 + first_index_of(t.drop_first(), c)
    }
}

/// `l` without one trailing carriage return.
pub open spec fn strip_cr(l: Seq<char>) -> Seq<char> {
    if l.len() > 0 && l.last() == '\r' {
        l.drop_last()
    } else {
        l
    }
}

/// The lines of `t`: pieces ended by a line feed (with a carriage return right
/// before it removed too), then the rest if it is not empty.
pub open spec fn lines_of(t: Seq<char>) -> Seq<Seq<char>>
    decreases t.len(),
{
    if t.len() == 0 {
        seq![]
    } else {
        let k = first_index_of(t, '\n');
        if k >= t.len() {
            seq![t]
        } else {
            seq![strip_cr(t.take(k as int))] + lines_of(t.skip(k + 1 as int))
        }
    }
}

/// The lines joined with a line feed between each two.
pub open spec fn join_lines(ls: Seq<Seq<char>>) -> Seq<char>
    decreases ls.len(),
{
    if ls.len() == 0 {
        seq![]
    } else if ls.len() == 1 {
        ls[0]
    } else {
        join_lines(ls.drop_last()) + seq!['\n'] + ls.last()
    }
}

pub proof fn lemma_first_index_after(b: Seq<char>, r: Seq<char>, c: char)
    requires
        !b.contains(c),
    ensures
        first_index_of(b + r, c) == b.len() + first_index_of(r, c),
    decreases b.len(),
{
    if b.len() > 0 {
        assert(b[0] != c);
        assert((b + r).drop_first() =~= b.drop_first() + r);
        assert(!b.drop_first().contains(c)) by {
            if b.drop_first().contains(c) {
                let j = choose|j: int| 0 <= j < b.drop_first().len() && b.drop_first()[j] == c;
                assert(b[j + 1] == c);
            }
        }
        lemma_first_index_after(b.drop_first(), r, c);
    } else {
        assert(b + r =~= r);
    }
}

/// Splits `t` into its lines.
pub fn split_lines(t: &Vec<char>) -> (r: Vec<Vec<char>>)
    ensures
        views(r@) == lines_of(t@),
{
    let mut out: Vec<Vec<char>> = Vec::new();
    let mut buf: Vec<char> = Vec::new();
    let mut i: usize = 0;
    proof {
        assert(views(out@) + lines_of(buf@ + t@.skip(0)) =~= lines_of(t@)) by {
            assert(buf@ + t@.skip(0) =~= t@);
        }
    }
    while i < t.len()
        invariant
            i <= t.len(),
            !buf@.contains('\n'),
            views(out@) + lines_of(buf@ + t@.skip(i as int)) == lines_of(t@),
        decreases t.len() - i,
    {
        let c = t[i];
        if c == '\n' {
            proof {
                let u = buf@ + t@.skip(i as int);
                lemma_first_index_after(buf@, t@.skip(i as int), '\n');
                assert(first_index_of(u, '\n') == buf@.len());
                assert(u.take(buf@.len() as int) =~= buf@);
                assert(u.skip(buf@.len() + 1 as int) =~= t@.skip(i + 1));
                assert(Seq::<char>::empty() + t@.skip(i + 1) =~= t@.skip(i + 1));
            }
            let ghost before = buf@;
            let n = buf.len();
            if n > 0 && buf[n - 1] == '\r' {
                buf.pop();
            }
            assert(buf@ == strip_cr(before));
            let ghost out_before = views(out@);
            out.push(buf);
            proof {
                assert(views(out@) =~= out_before.push(strip_cr(before)));
                assert(out_before.push(strip_cr(before)) + lines_of(t@.skip(i + 1))
                    =~= out_before + (seq![strip_cr(before)] + lines_of(t@.skip(i + 1))));
            }
            buf = Vec::new();
            proof {
                assert(buf@ + t@.skip(i + 1) =~= t@.skip(i + 1));
            }
        } else {
            proof {
                assert(buf@.push(c) + t@.skip(i + 1) =~= buf@ + t@.skip(i as int));
                assert(!buf@.push(c).contains('\n')) by {
                    if buf@.push(c).contains('\n') {
                        let j = choose|j: int| 0 <= j < buf@.push(c).len() && buf@.push(c)[j] == '\n';
                        if j < buf@.len() {
                            assert(buf@[j] == '\n');
                        }
                    }
                }
            }
            buf.push(c);
        }
        i = i + 1;
    }
    proof {
        assert(buf@ + t@.skip(i as int) =~= buf@);
        lemma_first_index_after(buf@, seq![], '\n');
        assert(buf@ + Seq::<char>::empty() =~= buf@);
    }
    if buf.len() > 0 {
        let ghost out_before = views(out@);
        out.push(buf);
        proof {
            assert(views(out@) =~= out_before + lines_of(buf@));
        }
    } else {
        proof {
            assert(views(out@) + lines_of(buf@) =~= views(out@));
        }
    }
    out
}

/// Joins `ls` with a line feed between each two.
pub fn join(ls: &Vec<Vec<char>>) -> (r: Vec<char>)
    ensures
        r@ == join_lines(views(ls@)),
{
    let mut out: Vec<char> = Vec::new();
    let mut i: usize = 0;
    while i < ls.len()
        invariant
            i <= ls.len(),
            out@ == join_lines(views(ls@).take(i as int)),
        decreases ls.len() - i,
    {
        let ghost prefix = out@;
        if i > 0 {
            out.push('\n');
        }
        let line = &ls[i];
        let mut j: usize = 0;
        while j < line.len()
            invariant
                j <= line.len(),
                line == ls@[i as int],
                i > 0 ==> out@ == prefix + seq!['\n'] + line@.take(j as int),
                i == 0 ==> out@ == prefix + line@.take(j as int),
            decreases line.len() - j,
        {
            out.push(line[j]);
            proof {
                assert(line@.take(j as int).push(line@[j as int]) =~= line@.take(j + 1));
            }
            j = j + 1;
        }
        proof {
            let vs = views(ls@);
            assert(line@.take(j as int) =~= line@);
            assert(vs.take(i + 1).drop_last() =~= vs.take(i as int));
            assert(vs.take(i + 1).last() == line@);
            if i == 0 {
                assert(prefix =~= Seq::<char>::empty());
                assert(out@ =~= line@);
            } else {
                assert(out@ =~= prefix + seq!['\n'] + line@);
            }
        }
        i = i + 1;
    }
    proof {
        assert(views(ls@).take(ls.len() as int) =~= views(ls@));
    }
    out
}


/// Lexicographic order on character sequences, characters compared by scalar value.
pub open spec fn lex_le(a: Seq<char>, b: Seq<char>) -> bool
    decreases a.len(),
{
    if a.len() == 0 {
        true
    } else if b.len() == 0 {
        false
    } else if a[0] != b[0] {
        a[0] < b[0]
    } else {
        lex_le(a.drop_first(), b.drop_first())
    }
}

/// `lex_le` as a spec closure, the order that `sort_by` takes.
pub open spec fn line_order() -> spec_fn(Seq<char>, Seq<char>) -> bool {
    |a: Seq<char>, b: Seq<char>| lex_le(a, b)
}

proof fn lemma_lex_reflexive(a: Seq<char>)
    ensures
        lex_le(a, a),
    decreases a.len(),
{
    if a.len() > 0 {
        lemma_lex_reflexive(a.drop_first());
    }
}

proof fn lemma_lex_antisymmetric(a: Seq<char>, b: Seq<char>)
    requires
        lex_le(a, b),
        lex_le(b, a),
    ensures
        a == b,
    decreases a.len(),
{
    if a.len() > 0 && b.len() > 0 {
        if a[0] == b[0] {
            lemma_lex_antisymmetric(a.drop_first(), b.drop_first());
            assert(a =~= seq![a[0]] + a.drop_first());
            assert(b =~= seq![b[0]] + b.drop_first());
        } else {
        }
    } else {
        assert(a =~= b);
    }
}

proof fn lemma_lex_transitive(a: Seq<char>, b: Seq<char>, c: Seq<char>)
    requires
        lex_le(a, b),
        lex_le(b, c),
    ensures
        lex_le(a, c),
    decreases a.len(),
{
    if a.len() > 0 && b.len() > 0 && c.len() > 0 {
        if a[0] == b[0] && b[0] == c[0] {
            lemma_lex_transitive(a.drop_first(), b.drop_first(), c.drop_first());
        }
    }
}

proof fn lemma_lex_total(a: Seq<char>, b: Seq<char>)
    ensures
        lex_le(a, b) || lex_le(b, a),
    decreases a.len(),
{
    if a.len() > 0 && b.len() > 0 {
        if a[0] == b[0] {
            lemma_lex_total(a.drop_first(), b.drop_first());
        } else {
        }
    }
}

/// The order in which lines are sorted is total.
pub proof fn lemma_line_order_total()
    ensures
        total_ordering(line_order()),
{
    assert forall|a: Seq<char>| #[trigger] line_order()(a, a) by {
        lemma_lex_reflexive(a);
    }
    assert forall|a: Seq<char>, b: Seq<char>|
        #[trigger] line_order()(a, b) && #[trigger] line_order()(b, a) implies a == b by {
        lemma_lex_antisymmetric(a, b);
    }
    assert forall|a: Seq<char>, b: Seq<char>, c: Seq<char>|
        #[trigger] line_order()(a, b) && #[trigger] line_order()(b, c) implies line_order()(
        a,
        c,
    ) by {
        lemma_lex_transitive(a, b, c);
    }
    assert forall|a: Seq<char>, b: Seq<char>|
        #[trigger] line_order()(a, b) || #[trigger] line_order()(b, a) by {
        lemma_lex_total(a, b);
    }
}

/// Relies on `slice::sort`: the elements are permuted into ascending order,
/// where `Vec<char>` compares lexicographically and `char` by scalar value.
#[verifier::external_body]
fn sort_vec(v: &mut Vec<Vec<char>>)
    ensures
        views(final(v)@).to_multiset() == views(old(v)@).to_multiset(),
        sorted_by(views(final(v)@), line_order()),
{
    v.sort();
}

/// Sorts `ls` in ascending lexicographic order.
pub fn sort_lines(ls: &mut Vec<Vec<char>>)
    ensures
        views(final(ls)@) == views(old(ls)@).sort_by(line_order()),
{
    sort_vec(ls);
    proof {
        lemma_line_order_total();
        views(old(ls)@).lemma_sort_by_ensures(line_order());
        vstd::seq_lib::lemma_sorted_unique(
            views(final(ls)@),
            views(old(ls)@).sort_by(line_order()),
            line_order(),
        );
    }
}

/// `ls` with each line equal to the line kept before it left out.
pub open spec fn dedup_adjacent(ls: Seq<Seq<char>>) -> Seq<Seq<char>>
    decreases ls.len(),
{
    if ls.len() == 0 {
        ls
    } else {
        let kept = dedup_adjacent(ls.drop_last());
        if kept.len() > 0 && kept.last() == ls.last() {
            kept
        } else {
            kept.push(ls.last())
        }
    }
}

/// After removing adjacent repeats, no two neighbouring lines are equal.
pub proof fn lemma_unique_no_adjacent_repeats(ls: Seq<Seq<char>>)
    ensures
        forall|i: int|
            0 <= i < dedup_adjacent(ls).len() - 1 ==> #[trigger] dedup_adjacent(ls)[i]
                != dedup_adjacent(ls)[i + 1],
    decreases ls.len(),
{
    if ls.len() > 0 {
        lemma_unique_no_adjacent_repeats(ls.drop_last());
        let kept = dedup_adjacent(ls.drop_last());
        let d = dedup_adjacent(ls);
        assert forall|i: int| 0 <= i < d.len() - 1 implies #[trigger] d[i] != d[i + 1] by {
            if d.len() != kept.len() {
                if i < kept.len() - 1 {
                    assert(d[i] == kept[i] && d[i + 1] == kept[i + 1]);
                }
            }
        }
    }
}

/// Whether two character vectors hold the same characters.
pub fn same_chars(a: &Vec<char>, b: &Vec<char>) -> (r: bool)
    ensures
        r == (a@ == b@),
{
    if a.len() != b.len() {
        return false;
    }
    let mut i: usize = 0;
    while i < a.len()
        invariant
            i <= a.len(),
            a.len() == b.len(),
            a@.take(i as int) == b@.take(i as int),
        decreases a.len() - i,
    {
        if a[i] != b[i] {
            return false;
        }
        proof {
            assert(a@.take(i + 1) =~= a@.take(i as int).push(a@[i as int]));
            assert(b@.take(i + 1) =~= b@.take(i as int).push(b@[i as int]));
        }
        i = i + 1;
    }
    proof {
        assert(a@.take(i as int) =~= a@);
        assert(b@.take(i as int) =~= b@);
    }
    true
}

/// Removes lines equal to the line kept right before them.
pub fn dedup_lines(ls: Vec<Vec<char>>) -> (r: Vec<Vec<char>>)
    ensures
        views(r@) == dedup_adjacent(views(ls@)),
{
    let mut out: Vec<Vec<char>> = Vec::new();
    let mut i: usize = 0;
    while i < ls.len()
        invariant
            i <= ls.len(),
            views(out@) == dedup_adjacent(views(ls@).take(i as int)),
        decreases ls.len() - i,
    {
        let ghost vs = views(ls@);
        proof {
            assert(vs.take(i + 1).drop_last() =~= vs.take(i as int));
        }
        let n = out.len();
        let repeat = n > 0 && same_chars(&out[n - 1], &ls[i]);
        if !repeat {
            let ghost before = views(out@);
            out.push(ls[i].clone());
            proof {
                assert(views(out@) =~= before.push(vs[i as int]));
            }
        }
        i = i + 1;
    }
    proof {
        assert(views(ls@).take(ls.len() as int) =~= views(ls@));
    }
    out
}

/// The lines of `ls` whose flag in `keep` is set.
pub open spec fn flagged(ls: Seq<Seq<char>>, keep: Seq<bool>) -> Seq<Seq<char>>
    decreases ls.len(),
{
    if ls.len() == 0 || keep.len() == 0 {
        seq![]
    } else {
        let rest = flagged(ls.drop_last(), keep.drop_last());
        if keep.last() {
            rest.push(ls.last())
        } else {
            rest
        }
    }
}

/// Keeps the lines of `ls` whose flag in `keep` is set, in order.
pub fn keep_flagged(ls: Vec<Vec<char>>, keep: &Vec<bool>) -> (r: Vec<Vec<char>>)
    requires
        ls.len() == keep.len(),
    ensures
        views(r@) == flagged(views(ls@), keep@),
{
    let mut out: Vec<Vec<char>> = Vec::new();
    let mut i: usize = 0;
    while i < ls.len()
        invariant
            i <= ls.len(),
            ls.len() == keep.len(),
            views(out@) == flagged(views(ls@).take(i as int), keep@.take(i as int)),
        decreases ls.len() - i,
    {
        let ghost vs = views(ls@);
        proof {
            assert(vs.take(i + 1).drop_last() =~= vs.take(i as int));
            assert(keep@.take(i + 1).drop_last() =~= keep@.take(i as int));
        }
        if keep[i] {
            let ghost before = views(out@);
            out.push(ls[i].clone());
            proof {
                assert(views(out@) =~= before.push(vs[i as int]));
            }
        }
        i = i + 1;
    }
    proof {
        assert(views(ls@).take(ls.len() as int) =~= views(ls@));
        assert(keep@.take(ls.len() as int) =~= keep@);
    }
    out
}

/// The first `n` lines of `ls`, all of them when there are fewer.
pub fn first_lines(ls: Vec<Vec<char>>, n: usize) -> (r: Vec<Vec<char>>)
    ensures
        views(r@) == views(ls@).take(if n < ls.len() { n as int } else { ls.len() as int }),
{
    let mut out: Vec<Vec<char>> = Vec::new();
    let mut i: usize = 0;
    while i < ls.len() && i < n
        invariant
            i <= ls.len(),
            i <= n,
            views(out@) == views(ls@).take(i as int),
        decreases ls.len() - i,
    {
        let ghost before = views(out@);
        out.push(ls[i].clone());
        proof {
            assert(views(out@) =~= before.push(ls@[i as int]@));
            assert(views(ls@).take(i + 1) =~= views(ls@).take(i as int).push(ls@[i as int]@));
        }
        i = i + 1;
    }
    out
}

/// The lines of `ls` from index `from` on.
pub fn lines_from(ls: Vec<Vec<char>>, from: usize) -> (r: Vec<Vec<char>>)
    requires
        from <= ls.len(),
    ensures
        views(r@) == views(ls@).skip(from as int),
{
    let mut out: Vec<Vec<char>> = Vec::new();
    let mut i: usize = from;
    while i < ls.len()
        invariant
            from <= i <= ls.len(),
            views(out@) == views(ls@).subrange(from as int, i as int),
        decreases ls.len() - i,
    {
        let ghost before = views(out@);
        out.push(ls[i].clone());
        proof {
            assert(views(out@) =~= before.push(ls@[i as int]@));
            assert(views(out@) =~= views(ls@).subrange(from as int, i + 1));
        }
        i = i + 1;
    }
    proof {
        assert(views(ls@).subrange(from as int, ls.len() as int) =~= views(ls@).skip(from as int));
    }
    out
}


/// Whether `p` is a prefix of `s`.
pub fn has_prefix(s: &Vec<char>, p: &Vec<char>) -> (r: bool)
    ensures
        r == p@.is_prefix_of(s@),
{
    if p.len() > s.len() {
        return false;
    }
    let mut i: usize = 0;
    while i < p.len()
        invariant
            i <= p.len() <= s.len(),
            forall|j: int| 0 <= j < i ==> p@[j] == s@[j],
        decreases p.len() - i,
    {
        if p[i] != s[i] {
            assert(p@[i as int] != s@.subrange(0, p@.len() as int)[i as int]);
            return false;
        }
        i = i + 1;
    }
    assert(p@ =~= s@.subrange(0, p@.len() as int));
    true
}

/// Whether `s` begins with the characters of `p`.
pub fn starts_with_str(s: &Vec<char>, p: &str) -> (r: bool)
    ensures
        r == p@.is_prefix_of(s@),
{
    let pc = chars_of(p);
    has_prefix(s, &pc)
}

} // verus!
