//! Levenshtein edit distance between character sequences.

use vstd::prelude::*;
use crate::text::chars_of;

verus! {

/// The smaller of two naturals.
pub open spec fn min_nat(x: nat, y: nat) -> nat {
    if x <= y { x } else { y }
}

/// The cost of matching two characters: nothing when equal, one otherwise.
pub open spec fn subst_cost(x: char, y: char) -> nat {
    if x == y { 0 } else { 1 }
}

/// The least number of single-character insertions, deletions and
/// substitutions that turn `a` into `b`.
pub open spec fn edit_distance(a: Seq<char>, b: Seq<char>) -> nat
    decreases a.len() + b.len(),
{
    if a.len() == 0 {
        b.len()
    } else if b.len() == 0 {
        a.len()
    } else {
        min_nat(
            min_nat(
                edit_distance(a.drop_last(), b) + 1,
                edit_distance(a, b.drop_last()) + 1,
            ),
            edit_distance(a.drop_last(), b.drop_last()) + subst_cost(a.last(), b.last()),
        )
    }
}

/// One step of the recurrence, stated over prefixes.
proof fn lemma_step(a: Seq<char>, b: Seq<char>, i: int, j: int)
    requires
        0 < i <= a.len(),
        0 < j <= b.len(),
    ensures
        edit_distance(a.take(i), b.take(j)) == min_nat(
            min_nat(
                edit_distance(a.take(i - 1), b.take(j)) + 1,
                edit_distance(a.take(i), b.take(j - 1)) + 1,
            ),
            edit_distance(a.take(i - 1), b.take(j - 1)) + subst_cost(a[i - 1], b[j - 1]),
        ),
{
    assert(a.take(i).drop_last() =~= a.take(i - 1));
    assert(b.take(j).drop_last() =~= b.take(j - 1));
    assert(a.take(i).last() == a[i - 1]);
    assert(b.take(j).last() == b[j - 1]);
}

/// The distance never exceeds the length of the longer sequence.
pub proof fn lemma_edit_distance_upper_bound(a: Seq<char>, b: Seq<char>)
    ensures
        edit_distance(a, b) <= if a.len() >= b.len() { a.len() } else { b.len() },
    decreases a.len() + b.len(),
{
    if a.len() > 0 && b.len() > 0 {
        lemma_edit_distance_upper_bound(a.drop_last(), b.drop_last());
        lemma_edit_distance_upper_bound(a.drop_last(), b);
        lemma_edit_distance_upper_bound(a, b.drop_last());
    }
}

/// The distance is at least the difference of the lengths.
pub proof fn lemma_edit_distance_lower_bound(a: Seq<char>, b: Seq<char>)
    ensures
        edit_distance(a, b) >= a.len() - b.len(),
        edit_distance(a, b) >= b.len() - a.len(),
    decreases a.len() + b.len(),
{
    if a.len() > 0 && b.len() > 0 {
        lemma_edit_distance_lower_bound(a.drop_last(), b.drop_last());
        lemma_edit_distance_lower_bound(a.drop_last(), b);
        lemma_edit_distance_lower_bound(a, b.drop_last());
    }
}

/// A sequence is at distance zero from itself.
pub proof fn lemma_edit_distance_self(a: Seq<char>)
    ensures
        edit_distance(a, a) == 0,
    decreases a.len(),
{
    if a.len() > 0 {
        lemma_edit_distance_self(a.drop_last());
    }
}

/// The distance is zero exactly when the sequences are equal.
pub proof fn lemma_edit_distance_zero_iff_equal(a: Seq<char>, b: Seq<char>)
    ensures
        edit_distance(a, b) == 0 <==> a == b,
    decreases a.len() + b.len(),
{
    if a == b {
        lemma_edit_distance_self(a);
    } else if a.len() > 0 && b.len() > 0 {
        lemma_edit_distance_zero_iff_equal(a.drop_last(), b.drop_last());
        if a.last() == b.last() && a.drop_last() == b.drop_last() {
            assert(a =~= a.drop_last().push(a.last()));
            assert(b =~= b.drop_last().push(b.last()));
        }
    } else if a.len() == 0 && b.len() == 0 {
        assert(a =~= b);
    }
}

/// The distance does not depend on the order of its arguments.
pub proof fn lemma_edit_distance_symmetric(a: Seq<char>, b: Seq<char>)
    ensures
        edit_distance(a, b) == edit_distance(b, a),
    decreases a.len() + b.len(),
{
    if a.len() > 0 && b.len() > 0 {
        lemma_edit_distance_symmetric(a.drop_last(), b.drop_last());
        lemma_edit_distance_symmetric(a.drop_last(), b);
        lemma_edit_distance_symmetric(a, b.drop_last());
    }
}

/// The triangle inequality: a detour through `b` never shortens the way
/// from `a` to `c`.
pub proof fn lemma_edit_distance_triangle(a: Seq<char>, b: Seq<char>, c: Seq<char>)
    ensures
        edit_distance(a, c) <= edit_distance(a, b) + edit_distance(b, c),
    decreases a.len() + b.len() + c.len(),
{
    if a.len() == 0 {
        lemma_edit_distance_lower_bound(b, c);
    } else if c.len() == 0 {
        lemma_edit_distance_lower_bound(a, b);
    } else if b.len() == 0 {
        lemma_edit_distance_upper_bound(a, c);
    } else {
        lemma_edit_distance_triangle(a.drop_last(), b, c);
        lemma_edit_distance_triangle(a, b, c.drop_last());
        lemma_edit_distance_triangle(a, b.drop_last(), c);
        lemma_edit_distance_triangle(a, b.drop_last(), c.drop_last());
        lemma_edit_distance_triangle(a.drop_last(), b.drop_last(), c);
        lemma_edit_distance_triangle(a.drop_last(), b.drop_last(), c.drop_last());
    }
}

/// The edit distance is a metric on character sequences, bounded by the
/// lengths: zero exactly between equal sequences, symmetric, obeying the
/// triangle inequality, at least the difference of the lengths and at most
/// the longer length.
pub proof fn lemma_edit_distance_metric(a: Seq<char>, b: Seq<char>, c: Seq<char>)
    ensures
        edit_distance(a, b) == 0 <==> a == b,
        edit_distance(a, b) == edit_distance(b, a),
        edit_distance(a, c) <= edit_distance(a, b) + edit_distance(b, c),
        edit_distance(a, b) >= a.len() - b.len(),
        edit_distance(a, b) >= b.len() - a.len(),
        edit_distance(a, b) <= if a.len() >= b.len() { a.len() } else { b.len() },
{
    lemma_edit_distance_zero_iff_equal(a, b);
    lemma_edit_distance_symmetric(a, b);
    lemma_edit_distance_triangle(a, b, c);
    lemma_edit_distance_lower_bound(a, b);
    lemma_edit_distance_upper_bound(a, b);
}

/// One edit of a character sequence: insert a character before position
/// `i`, delete the character at `i`, or replace the character at `i`.
#[derive(Clone, Copy)]
pub enum Edit {
    Insert(nat, char),
    Delete(nat),
    Substitute(nat, char),
}

/// The sequence after one edit; `None` when the position is out of range.
pub open spec fn apply_edit(s: Seq<char>, e: Edit) -> Option<Seq<char>> {
    match e {
        Edit::Insert(i, c) => if i <= s.len() { Some(s.take(i as int) + seq![c] + s.skip(i as int)) } else { None },
        Edit::Delete(i) => if i < s.len() { Some(s.take(i as int) + s.skip(i + 1int)) } else { None },
        Edit::Substitute(i, c) => if i < s.len() { Some(s.update(i as int, c)) } else { None },
    }
}

/// The sequence after a script of edits applied in order; `None` when an
/// edit's position is out of range.
pub open spec fn apply_edits(s: Seq<char>, es: Seq<Edit>) -> Option<Seq<char>>
    decreases es.len(),
{
    if es.len() == 0 {
        Some(s)
    } else {
        match apply_edit(s, es[0]) {
            Some(t) => apply_edits(t, es.drop_first()),
            None => None,
        }
    }
}

/// Inserting one character moves the sequence by at most one.
proof fn lemma_insert_distance(s: Seq<char>, i: nat, c: char)
    requires
        i <= s.len(),
    ensures
        edit_distance(s, s.take(i as int) + seq![c] + s.skip(i as int)) <= 1,
    decreases s.len(),
{
    let t = s.take(i as int) + seq![c] + s.skip(i as int);
    if i == s.len() {
        assert(t =~= s.push(c));
        assert(t.drop_last() =~= s);
        lemma_edit_distance_self(s);
        if s.len() == 0 {
            assert(t.len() == 1);
        }
    } else {
        let s1 = s.drop_last();
        let t1 = s1.take(i as int) + seq![c] + s1.skip(i as int);
        lemma_insert_distance(s1, i, c);
        assert(t.drop_last() =~= t1);
        assert(t.last() == s.last());
    }
}

/// Replacing one character moves the sequence by at most one.
proof fn lemma_substitute_distance(s: Seq<char>, i: nat, c: char)
    requires
        i < s.len(),
    ensures
        edit_distance(s, s.update(i as int, c)) <= 1,
    decreases s.len(),
{
    let t = s.update(i as int, c);
    let s1 = s.drop_last();
    if i + 1 == s.len() {
        assert(t.drop_last() =~= s1);
        lemma_edit_distance_self(s1);
    } else {
        lemma_substitute_distance(s1, i, c);
        assert(t.drop_last() =~= s1.update(i as int, c));
        assert(t.last() == s.last());
    }
}

/// One edit moves the sequence by at most one.
proof fn lemma_edit_distance_one_edit(s: Seq<char>, e: Edit)
    requires
        apply_edit(s, e) is Some,
    ensures
        edit_distance(s, apply_edit(s, e)->0) <= 1,
{
    match e {
        Edit::Insert(i, c) => lemma_insert_distance(s, i, c),
        Edit::Delete(i) => {
            let t = s.take(i as int) + s.skip(i + 1int);
            assert(s =~= t.take(i as int) + seq![s[i as int]] + t.skip(i as int));
            lemma_insert_distance(t, i, s[i as int]);
            lemma_edit_distance_symmetric(s, t);
        },
        Edit::Substitute(i, c) => lemma_substitute_distance(s, i, c),
    }
}

/// No script of edits turning `a` into `b` is shorter than their distance.
proof fn lemma_scripts_not_shorter(a: Seq<char>, b: Seq<char>, es: Seq<Edit>)
    requires
        apply_edits(a, es) == Some(b),
    ensures
        edit_distance(a, b) <= es.len(),
    decreases es.len(),
{
    if es.len() == 0 {
        lemma_edit_distance_self(a);
    } else {
        let t = apply_edit(a, es[0])->0;
        lemma_scripts_not_shorter(t, b, es.drop_first());
        lemma_edit_distance_one_edit(a, es[0]);
        lemma_edit_distance_triangle(a, t, b);
    }
}

/// Running two scripts one after the other.
proof fn lemma_apply_concat(s: Seq<char>, es1: Seq<Edit>, es2: Seq<Edit>)
    requires
        apply_edits(s, es1) is Some,
    ensures
        apply_edits(s, es1 + es2) == apply_edits(apply_edits(s, es1)->0, es2),
    decreases es1.len(),
{
    if es1.len() == 0 {
        assert(es1 + es2 =~= es2);
    } else {
        let t = apply_edit(s, es1[0])->0;
        assert((es1 + es2).drop_first() =~= es1.drop_first() + es2);
        lemma_apply_concat(t, es1.drop_first(), es2);
    }
}

/// A script that works on `s` works the same on `s` followed by one more
/// character, which stays at the end.
proof fn lemma_apply_extend(s: Seq<char>, x: char, es: Seq<Edit>)
    requires
        apply_edits(s, es) is Some,
    ensures
        apply_edits(s.push(x), es) == Some(apply_edits(s, es)->0.push(x)),
    decreases es.len(),
{
    if es.len() > 0 {
        let t = apply_edit(s, es[0])->0;
        let tx = apply_edit(s.push(x), es[0])->0;
        match es[0] {
            Edit::Insert(i, c) => {
                assert(tx =~= t.push(x));
            },
            Edit::Delete(i) => {
                assert(tx =~= t.push(x));
            },
            Edit::Substitute(i, c) => {
                assert(tx =~= t.push(x));
            },
        }
        lemma_apply_extend(t, x, es.drop_first());
    }
}

/// A script followed by one more edit.
proof fn lemma_apply_then(s: Seq<char>, es: Seq<Edit>, e: Edit)
    requires
        apply_edits(s, es) is Some,
    ensures
        apply_edits(s, es.push(e)) == apply_edit(apply_edits(s, es)->0, e),
        es.push(e).len() == es.len() + 1,
{
    let single = Seq::<Edit>::empty().push(e);
    assert(single.len() == 1);
    assert(single[0] == e);
    assert(single.drop_first() =~= Seq::<Edit>::empty());
    let t = apply_edits(s, es)->0;
    if let Some(u) = apply_edit(t, e) {
        assert(apply_edits(u, Seq::<Edit>::empty()) == Some(u));
    }
    assert(apply_edits(t, single) == apply_edit(t, e));
    lemma_apply_concat(s, es, single);
    assert(es + single =~= es.push(e));
}

/// A script of one edit does what the edit does.
proof fn lemma_apply_single(s: Seq<char>, e: Edit)
    ensures
        apply_edits(s, Seq::<Edit>::empty().push(e)) == apply_edit(s, e),
        Seq::<Edit>::empty().push(e).len() == 1,
{
    let es = Seq::<Edit>::empty().push(e);
    assert(es.len() == 1);
    assert(es[0] == e);
    assert(es.drop_first() =~= Seq::<Edit>::empty());
    if let Some(t) = apply_edit(s, e) {
        assert(apply_edits(t, Seq::<Edit>::empty()) == Some(t));
    }
}

/// A script that reaches `t`, followed by appending `c`.
proof fn lemma_append_insert(a: Seq<char>, front: Seq<Edit>, t: Seq<char>, c: char) -> (r: Seq<Edit>)
    requires
        apply_edits(a, front) == Some(t),
    ensures
        apply_edits(a, r) == Some(t.push(c)),
        r.len() == front.len() + 1,
{
    let e = Edit::Insert(t.len(), c);
    assert(apply_edit(t, e)->0 =~= t.push(c));
    lemma_apply_then(a, front, e);
    front.push(e)
}

/// A script that reaches `t` followed by `x`, followed by replacing that
/// last character with `c`.
proof fn lemma_append_substitute(a: Seq<char>, front: Seq<Edit>, t: Seq<char>, x: char, c: char) -> (r: Seq<Edit>)
    requires
        apply_edits(a, front) == Some(t.push(x)),
    ensures
        apply_edits(a, r) == Some(t.push(c)),
        r.len() == front.len() + 1,
{
    let e = Edit::Substitute(t.len(), c);
    assert(apply_edit(t.push(x), e)->0 =~= t.push(c));
    lemma_apply_then(a, front, e);
    front.push(e)
}

/// A script of exactly `edit_distance(a, b)` edits turns `a` into `b`.
proof fn lemma_shortest_script(a: Seq<char>, b: Seq<char>) -> (es: Seq<Edit>)
    ensures
        apply_edits(a, es) == Some(b),
        es.len() == edit_distance(a, b),
    decreases a.len() + b.len(),
{
    if a.len() == 0 && b.len() == 0 {
        assert(a =~= b);
        assert(apply_edits(a, Seq::<Edit>::empty()) == Some(b));
        assert(Seq::<Edit>::empty().len() == edit_distance(a, b));
        Seq::<Edit>::empty()
    } else if a.len() > 0 && (b.len() == 0 || edit_distance(a, b) == edit_distance(a.drop_last(), b) + 1) {
        let rest = lemma_shortest_script(a.drop_last(), b);
        let e = Edit::Delete((a.len() - 1) as nat);
        let first = Seq::<Edit>::empty().push(e);
        assert(apply_edit(a, e)->0 =~= a.drop_last());
        lemma_apply_single(a, e);
        lemma_apply_concat(a, first, rest);
        assert(edit_distance(a, b) == edit_distance(a.drop_last(), b) + 1);
        assert(apply_edits(a, first + rest) == Some(b));
        assert((first + rest).len() == edit_distance(a, b));
        first + rest
    } else if a.len() == 0 || edit_distance(a, b) == edit_distance(a, b.drop_last()) + 1 {
        let b1 = b.drop_last();
        let front = lemma_shortest_script(a, b1);
        let r = lemma_append_insert(a, front, b1, b.last());
        assert(b1.push(b.last()) =~= b);
        assert(edit_distance(a, b) == edit_distance(a, b1) + 1);
        r
    } else {
        let a1 = a.drop_last();
        let b1 = b.drop_last();
        let front = lemma_shortest_script(a1, b1);
        assert(edit_distance(a, b) == edit_distance(a1, b1) + subst_cost(a.last(), b.last()));
        lemma_apply_extend(a1, a.last(), front);
        assert(a1.push(a.last()) =~= a);
        if a.last() == b.last() {
            assert(b1.push(a.last()) =~= b);
            assert(apply_edits(a, front) == Some(b));
            assert(front.len() == edit_distance(a, b));
            front
        } else {
            let r = lemma_append_substitute(a, front, b1, a.last(), b.last());
            assert(b1.push(b.last()) =~= b);
            r
        }
    }
}

/// The edit distance is the length of the shortest edit script: no script of
/// insertions, deletions and substitutions that turns `a` into `b` is
/// shorter, and one of exactly that length exists.
pub proof fn lemma_edit_distance_is_shortest_script(a: Seq<char>, b: Seq<char>)
    ensures
        forall|es: Seq<Edit>| #[trigger] apply_edits(a, es) == Some(b) ==> edit_distance(a, b) <= es.len(),
        exists|es: Seq<Edit>| #[trigger] apply_edits(a, es) == Some(b) && es.len() == edit_distance(a, b),
{
    assert forall|es: Seq<Edit>| #[trigger] apply_edits(a, es) == Some(b) implies edit_distance(a, b) <= es.len() by {
        lemma_scripts_not_shorter(a, b, es);
    }
    let es = lemma_shortest_script(a, b);
    assert(apply_edits(a, es) == Some(b));
}

fn min3(x: usize, y: usize, z: usize) -> (r: usize)
    ensures
        r as nat == min_nat(min_nat(x as nat, y as nat), z as nat),
{
    let m = if x <= y { x } else { y };
    if m <= z { m } else { z }
}

/// Levenshtein edit distance: the least number of single-character
/// insertions, deletions and substitutions that turn `a` into `b`.
/// Characters are compared exactly, so the distance is case sensitive.
pub fn levenshtein(a: &str, b: &str) -> (d: usize)
    ensures
        d as nat == edit_distance(a@, b@),
{
    let a_chars = chars_of(a);
    let b_chars = chars_of(b);
    let a_len = a_chars.len();
    let b_len = b_chars.len();
    if a_len == 0 {
        return b_len;
    }
    if b_len == 0 {
        return a_len;
    }
    let ghost sa = a@;
    let ghost sb = b@;
    // prev[j] holds the distance between the first i - 1 characters of `a`
    // and the first j characters of `b`.
    let mut prev: Vec<usize> = Vec::new();
    let mut j: usize = 0;
    loop
        invariant_except_break
            b_len == sb.len(),
            j <= b_len,
            prev@.len() == j,
            forall|k: int| 0 <= k < j ==> prev@[k] as nat == edit_distance(sa.take(0), sb.take(k)),
        ensures
            prev@.len() == b_len + 1,
            forall|k: int| 0 <= k <= b_len ==> prev@[k] as nat == edit_distance(sa.take(0), sb.take(k)),
        decreases b_len - j,
    {
        assert(sa.take(0).len() == 0);
        prev.push(j);
        if j == b_len {
            break;
        }
        j = j + 1;
    }
    let row_len = prev.len();
    assert(b_len < row_len);
    let mut i: usize = 0;
    while i < a_len
        invariant
            b_len < usize::MAX,
            a_len == sa.len(),
            b_len == sb.len(),
            a_chars@ == sa,
            b_chars@ == sb,
            b_len > 0,
            0 <= i <= a_len,
            prev@.len() == b_len + 1,
            forall|k: int| 0 <= k <= b_len ==> prev@[k] as nat == edit_distance(sa.take(i as int), sb.take(k)),
        decreases a_len - i,
    {
        let row = i + 1;
        let mut curr: Vec<usize> = Vec::new();
        proof {
            assert(sb.take(0).len() == 0);
            assert(sa.take(row as int).len() == row);
        }
        curr.push(row);
        let mut j: usize = 1;
        while j <= b_len
            invariant
                a_len == sa.len(),
                b_len == sb.len(),
                a_chars@ == sa,
                b_chars@ == sb,
                row == i + 1,
                b_len < usize::MAX,
                1 <= row <= a_len,
                1 <= j <= b_len + 1,
                prev@.len() == b_len + 1,
                curr@.len() == j,
                forall|k: int| 0 <= k <= b_len ==> prev@[k] as nat == edit_distance(sa.take(i as int), sb.take(k)),
                forall|k: int| 0 <= k < j ==> curr@[k] as nat == edit_distance(sa.take(row as int), sb.take(k)),
            decreases b_len + 1 - j,
        {
            let cost: usize = if a_chars[i] == b_chars[j - 1] { 0 } else { 1 };
            let del = prev[j].saturating_add(1);
            let ins = curr[j - 1].saturating_add(1);
            let sub = prev[j - 1].saturating_add(cost);
            proof {
                lemma_step(sa, sb, row as int, j as int);
                lemma_edit_distance_upper_bound(sa.take(row as int), sb.take(j as int));
            }
            let v = min3(del, ins, sub);
            curr.push(v);
            j = j + 1;
        }
        prev = curr;
        i = i + 1;
    }
    proof {
        assert(sa.take(a_len as int) =~= sa);
        assert(sb.take(b_len as int) =~= sb);
    }
    prev[b_len]
}

} // verus!
