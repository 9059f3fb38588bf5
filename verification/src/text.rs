use vstd::prelude::*;

verus! {

/// `String::push`: appends one character to the string.
#[verifier::external_body]
fn push_char(s: &mut String, c: char)
    ensures
        final(s)@ == old(s)@.push(c),
{
    s.push(c);
}

/// The string made of `chars`, in order.
pub fn string_from_chars(chars: &Vec<char>) -> (s: String)
    ensures
        s@ == chars@,
{
    let mut s = String::new();
    let mut i: usize = 0;
    while i < chars.len()
        invariant
            i <= chars.len(),
            s@ == chars@.subrange(0, i as int),
        decreases chars.len() - i,
    {
        push_char(&mut s, chars[i]);
        i = i + 1;
        assert(s@ =~= chars@.subrange(0, i as int));
    }
    assert(chars@.subrange(0, i as int) =~= chars@);
    s
}

/// Appends every character of `s` to `v`.
pub fn push_chars(v: &mut Vec<char>, s: &[char])
    ensures
        final(v)@ == old(v)@ + s@,
{
    let mut i: usize = 0;
    while i < s.len()
        invariant
            i <= s.len(),
            v@ == old(v)@ + s@.subrange(0, i as int),
        decreases s.len() - i,
    {
        v.push(s[i]);
        i = i + 1;
        assert(v@ =~= old(v)@ + s@.subrange(0, i as int));
    }
    assert(s@.subrange(0, i as int) =~= s@);
}

/// Lexicographic order on character sequences, by code point: the order of
/// `str`'s comparison, since UTF-8 keeps the order of code points.
pub open spec fn seq_le(a: Seq<char>, b: Seq<char>) -> bool
    decreases a.len(),
{
    if a.len() == 0 {
        true
    } else if b.len() == 0 {
        false
    } else if a[0] < b[0] {
        true
    } else if a[0] > b[0] {
        false
    } else {
        seq_le(a.drop_first(), b.drop_first())
    }
}

/// Whether `a` comes no later than `b` in lexicographic order.
pub fn chars_le(a: &Vec<char>, b: &Vec<char>) -> (r: bool)
    ensures
        r == seq_le(a@, b@),
{
    let mut i: usize = 0;
    assert(a@.subrange(0, a@.len() as int) =~= a@);
    assert(b@.subrange(0, b@.len() as int) =~= b@);
    while i < a.len() && i < b.len()
        invariant
            i <= a.len(),
            i <= b.len(),
            a@.subrange(0, i as int) == b@.subrange(0, i as int),
            seq_le(a@, b@) == seq_le(a@.subrange(i as int, a@.len() as int), b@.subrange(i as int, b@.len() as int)),
        decreases a.len() - i,
    {
        let x = a[i];
        let y = b[i];
        if x < y {
            return true;
        }
        if x > y {
            return false;
        }
        proof {
            let sa = a@.subrange(i as int, a@.len() as int);
            let sb = b@.subrange(i as int, b@.len() as int);
            assert(sa.drop_first() =~= a@.subrange(i + 1, a@.len() as int));
            assert(sb.drop_first() =~= b@.subrange(i + 1, b@.len() as int));
            assert(a@.subrange(0, i + 1) =~= a@.subrange(0, i as int).push(x));
            assert(b@.subrange(0, i + 1) =~= b@.subrange(0, i as int).push(y));
            assert(sa.len() > 0 && sb.len() > 0);
            assert(sa[0] == x && sb[0] == y);
        }
        i = i + 1;
    }
    proof {
        assert(a@.subrange(0, a@.len() as int) =~= a@);
        assert(b@.subrange(0, b@.len() as int) =~= b@);
    }
    i == a.len()
}

proof fn lemma_seq_le_total(a: Seq<char>, b: Seq<char>)
    ensures
        seq_le(a, b) || seq_le(b, a),
    decreases a.len(),
{
    if a.len() > 0 && b.len() > 0 && a[0] == b[0] {
        lemma_seq_le_total(a.drop_first(), b.drop_first());
    } else if a.len() > 0 && b.len() > 0 {
        assert(a[0] != b[0]);
    }
}

/// Lexicographic order is total.
pub proof fn seq_le_total(a: Seq<char>, b: Seq<char>)
    ensures
        seq_le(a, b) || seq_le(b, a),
{
    lemma_seq_le_total(a, b);
}


proof fn lemma_seq_le_trans(a: Seq<char>, b: Seq<char>, c: Seq<char>)
    requires
        seq_le(a, b),
        seq_le(b, c),
    ensures
        seq_le(a, c),
    decreases a.len(),
{
    if a.len() > 0 && b.len() > 0 && c.len() > 0 && a[0] == b[0] && b[0] == c[0] {
        lemma_seq_le_trans(a.drop_first(), b.drop_first(), c.drop_first());
    }
}

/// Lexicographic order is transitive.
pub proof fn seq_le_trans(a: Seq<char>, b: Seq<char>, c: Seq<char>)
    requires
        seq_le(a, b),
        seq_le(b, c),
    ensures
        seq_le(a, c),
{
    lemma_seq_le_trans(a, b, c);
}

/// The entries are in lexicographic order of their labels.
pub open spec fn sorted_by_label<T>(s: Seq<(Vec<char>, T)>) -> bool {
    forall|i: int, j: int| 0 <= i < j < s.len() ==> seq_le(#[trigger] s[i].0@, #[trigger] s[j].0@)
}

proof fn lemma_insert_multiset<T>(s: Seq<T>, pos: int, e: T)
    requires
        0 <= pos <= s.len(),
    ensures
        s.insert(pos, e).to_multiset() =~= s.to_multiset().insert(e),
{
    let t = s.insert(pos, e);
    s.insert_ensures(pos, e);
    assert(t.remove(pos) =~= s);
    t.to_multiset_ensures();
    assert(t.contains(e)) by {
        assert(t[pos] == e);
    }
    assert(t.to_multiset().count(e) > 0);
    assert(t.to_multiset().remove(e) =~= s.to_multiset());
}

/// The entries of `items`, reordered by their labels.
pub fn sort_by_label<T>(items: Vec<(Vec<char>, T)>) -> (r: Vec<(Vec<char>, T)>)
    ensures
        r@.to_multiset() == items@.to_multiset(),
        sorted_by_label(r@),
{
    let mut rest = items;
    let mut out: Vec<(Vec<char>, T)> = Vec::new();
    proof {
        broadcast use vstd::multiset::group_multiset_axioms;
        out@.to_multiset_ensures();
        assert(out@.to_multiset().len() == 0);
        assert(out@.to_multiset() =~= vstd::multiset::Multiset::empty());
        assert(out@.to_multiset().add(rest@.to_multiset()) =~= items@.to_multiset());
    }
    while rest.len() > 0
        invariant
            out@.to_multiset().add(rest@.to_multiset()) == items@.to_multiset(),
            sorted_by_label(out@),
        decreases rest.len(),
    {
        let ghost before_rest = rest@;
        let ghost before_out = out@;
        let e = rest.pop().unwrap();
        proof {
            assert(before_rest =~= rest@.push(e));
            rest@.to_multiset_ensures();
        }
        let mut pos: usize = 0;
        while pos < out.len() && chars_le(&out[pos].0, &e.0)
            invariant
                pos <= out@.len(),
                out@ == before_out,
                forall|i: int| 0 <= i < pos ==> seq_le(#[trigger] out@[i].0@, e.0@),
            decreases out.len() - pos,
        {
            pos = pos + 1;
        }
        proof {
            if pos < out@.len() {
                seq_le_total(out@[pos as int].0@, e.0@);
            }
        }
        let ghost e_label = e.0@;
        out.insert(pos, e);
        proof {
            broadcast use vstd::multiset::group_multiset_axioms;
            lemma_insert_multiset(before_out, pos as int, out@[pos as int]);
            assert(out@ =~= before_out.insert(pos as int, out@[pos as int]));
            assert forall|i: int, j: int| 0 <= i < j < out@.len() implies seq_le(#[trigger] out@[i].0@, #[trigger] out@[j].0@) by {
                if j < pos {
                    assert(out@[i] == before_out[i] && out@[j] == before_out[j]);
                } else if j == pos {
                    assert(out@[i] == before_out[i]);
                } else if i == pos {
                    assert(out@[j] == before_out[j - 1]);
                    if j - 1 > pos {
                        assert(out@[pos as int + 1] == before_out[pos as int]);
                        seq_le_trans(e_label, before_out[pos as int].0@, before_out[j - 1].0@);
                    }
                } else if i < pos {
                    assert(out@[i] == before_out[i] && out@[j] == before_out[j - 1]);
                } else {
                    assert(out@[i] == before_out[i - 1] && out@[j] == before_out[j - 1]);
                }
            }
            assert(out@.to_multiset().add(rest@.to_multiset()) =~= items@.to_multiset());
        }
    }
    proof {
        broadcast use vstd::multiset::group_multiset_axioms;
        assert(rest@ =~= Seq::<(Vec<char>, T)>::empty());
        assert(out@.to_multiset() =~= items@.to_multiset());
    }
    out
}


/// Two sequences with the same multiset hold the same elements; where the
/// first has no element twice, neither has the second.
pub proof fn lemma_same_multiset<T>(s: Seq<T>, t: Seq<T>)
    requires
        s.to_multiset() == t.to_multiset(),
    ensures
        forall|i: int| 0 <= i < s.len() ==> t.contains(#[trigger] s[i]),
        forall|j: int| 0 <= j < t.len() ==> s.contains(#[trigger] t[j]),
        s.len() == t.len(),
        s.no_duplicates() ==> t.no_duplicates(),
{
    s.to_multiset_ensures();
    t.to_multiset_ensures();
    assert forall|i: int| 0 <= i < s.len() implies t.contains(#[trigger] s[i]) by {
        assert(s.contains(s[i]));
        assert(s.to_multiset().count(s[i]) > 0);
        assert(t.to_multiset().count(s[i]) > 0);
    }
    assert forall|j: int| 0 <= j < t.len() implies s.contains(#[trigger] t[j]) by {
        assert(t.contains(t[j]));
        assert(t.to_multiset().count(t[j]) > 0);
        assert(s.to_multiset().count(t[j]) > 0);
    }
    if s.no_duplicates() {
        s.lemma_multiset_has_no_duplicates();
        t.lemma_multiset_has_no_duplicates_conv();
    }
}

} // verus!
