//! Placeholder substitution: every occurrence of the placeholder token in a
//! template is replaced by the greeted name, scanning left to right without
//! overlap.

use vstd::prelude::*;
use vstd::string::*;

verus! {

/// The placeholder token a template may contain.
pub open spec fn placeholder() -> Seq<char> {
    seq!['{', 'n', 'a', 'm', 'e', '}']
}

/// `t` with every occurrence of the placeholder replaced by `name`,
/// scanning left to right without overlap.
pub open spec fn subst_spec(t: Seq<char>, name: Seq<char>) -> Seq<char>
    decreases t.len(),
{
    if t.len() == 0 {
        Seq::empty()
    } else if t.len() >= 6 && t.subrange(0, 6) == placeholder() {
        name + subst_spec(t.skip(6), name)
    } else {
        seq![t[0]] + subst_spec(t.skip(1), name)
    }
}

/// The placeholder occupies positions `i .. i + 6` of `t`.
pub open spec fn occurs_at(t: Seq<char>, i: int) -> bool {
    0 <= i && i + 6 <= t.len() && t.subrange(i, i + 6) == placeholder()
}

proof fn lemma_subst_step_placeholder(t: Seq<char>, name: Seq<char>, i: int)
    requires
        occurs_at(t, i),
    ensures
        subst_spec(t.skip(i), name) == name + subst_spec(t.skip(i + 6), name),
{
    let s = t.skip(i);
    assert(s.subrange(0, 6) =~= t.subrange(i, i + 6));
    assert(s.skip(6) =~= t.skip(i + 6));
}

proof fn lemma_subst_step_char(t: Seq<char>, name: Seq<char>, i: int)
    requires
        0 <= i < t.len(),
        !occurs_at(t, i),
    ensures
        subst_spec(t.skip(i), name) == seq![t[i]] + subst_spec(t.skip(i + 1), name),
{
    let s = t.skip(i);
    assert(s.len() == t.len() - i);
    if s.len() >= 6 {
        assert(s.subrange(0, 6) =~= t.subrange(i, i + 6));
        assert(s.subrange(0, 6) != placeholder());
    }
    assert(s[0] == t[i]);
    assert(s.skip(1) =~= t.skip(i + 1));
}

fn placeholder_at(t: &str, i: usize, n: usize) -> (r: bool)
    requires
        n == t@.len(),
        i < n,
        n - i >= 6,
    ensures
        r == occurs_at(t@, i as int),
{
    let r = t.get_char(i) == '{' && t.get_char(i + 1) == 'n' && t.get_char(i + 2) == 'a'
        && t.get_char(i + 3) == 'm' && t.get_char(i + 4) == 'e' && t.get_char(i + 5) == '}';
    proof {
        let ii = i as int;
        if r {
            assert(t@.subrange(ii, ii + 6) =~= placeholder());
        } else {
            if t@.subrange(ii, ii + 6) == placeholder() {
                assert(t@[ii] == placeholder()[0]);
                assert(t@[ii + 1] == placeholder()[1]);
                assert(t@[ii + 2] == placeholder()[2]);
                assert(t@[ii + 3] == placeholder()[3]);
                assert(t@[ii + 4] == placeholder()[4]);
                assert(t@[ii + 5] == placeholder()[5]);
            }
        }
    }
    r
}

/// The template with every placeholder occurrence replaced by `name`.
pub fn substitute(template: &str, name: &str) -> (r: String)
    ensures
        r@ == subst_spec(template@, name@),
{
    let n = template.unicode_len();
    let mut out = String::new();
    let mut i: usize = 0;
    proof {
        assert(template@.skip(0) =~= template@);
    }
    while i < n
        invariant
            n == template@.len(),
            i <= n,
            subst_spec(template@, name@) == out@ + subst_spec(template@.skip(i as int), name@),
        decreases n - i,
    {
        if n - i >= 6 && placeholder_at(template, i, n) {
            proof {
                lemma_subst_step_placeholder(template@, name@, i as int);
            }
            out.append(name);
            i = i + 6;
        } else {
            proof {
                lemma_subst_step_char(template@, name@, i as int);
            }
            let seg = template.substring_char(i, i + 1);
            assert(seg@ =~= seq![template@[i as int]]);
            out.append(seg);
            i = i + 1;
        }
    }
    proof {
        assert(template@.skip(n as int) =~= Seq::<char>::empty());
    }
    out
}

/// A template in which the placeholder never occurs is returned unchanged.
pub proof fn lemma_subst_absent(t: Seq<char>, name: Seq<char>)
    requires
        forall|i: int| !occurs_at(t, i),
    ensures
        subst_spec(t, name) == t,
    decreases t.len(),
{
    if t.len() == 0 {
        assert(subst_spec(t, name) =~= t);
    } else {
        lemma_subst_step_char(t, name, 0);
        assert(t.skip(0) =~= t);
        assert forall|i: int| !occurs_at(t.skip(1), i) by {
            if occurs_at(t.skip(1), i) {
                assert(t.subrange(i + 1, i + 7) =~= t.skip(1).subrange(i, i + 6));
                assert(occurs_at(t, i + 1));
            }
        }
        lemma_subst_absent(t.skip(1), name);
        assert(subst_spec(t, name) =~= t);
    }
}

/// Substitution is exact: where `a + placeholder + b` holds the placeholder
/// only at the seam, the result is `a + name + b` — the name verbatim, the
/// placeholder removed, and nothing else altered.
pub proof fn lemma_subst_single(a: Seq<char>, b: Seq<char>, name: Seq<char>)
    requires
        forall|i: int| occurs_at(a + placeholder() + b, i) ==> i == a.len(),
    ensures
        subst_spec(a + placeholder() + b, name) == a + name + b,
    decreases a.len(),
{
    let t = a + placeholder() + b;
    if a.len() == 0 {
        assert(t.subrange(0, 6) =~= placeholder());
        assert(occurs_at(t, 0));
        lemma_subst_step_placeholder(t, name, 0);
        assert(t.skip(0) =~= t);
        assert(t.skip(6) =~= b);
        assert forall|i: int| !occurs_at(b, i) by {
            if occurs_at(b, i) {
                assert(t.subrange(i + 6, i + 12) =~= b.subrange(i, i + 6));
                assert(occurs_at(t, i + 6));
            }
        }
        lemma_subst_absent(b, name);
        assert(subst_spec(t, name) =~= a + name + b);
    } else {
        assert(!occurs_at(t, 0));
        lemma_subst_step_char(t, name, 0);
        assert(t.skip(0) =~= t);
        let t1 = a.skip(1) + placeholder() + b;
        assert(t1 =~= t.skip(1));
        assert forall|i: int| occurs_at(t1, i) implies i == a.skip(1).len() by {
            assert(t.subrange(i + 1, i + 7) =~= t1.subrange(i, i + 6));
            assert(occurs_at(t, i + 1));
        }
        lemma_subst_single(a.skip(1), b, name);
        assert(t[0] == a[0]);
        assert(subst_spec(t, name) =~= a + name + b);
    }
}

} // verus!
