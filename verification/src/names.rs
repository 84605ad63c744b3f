//! The alphabetical order of team names, the tie-break of last resort.

use vstd::prelude::*;
use vstd::string::*;

verus! {

/// Whether `x` stands before `y` in lexicographic order of the characters'
/// code points. A proper prefix stands before the longer name.
pub open spec fn name_before(x: Seq<char>, y: Seq<char>) -> bool
    decreases x.len(),
{
    if y.len() == 0 {
        false
    } else if x.len() == 0 {
        true
    } else if x[0] != y[0] {
        (x[0] as int) < (y[0] as int)
    } else {
        name_before(x.drop_first(), y.drop_first())
    }
}

/// No name stands before itself, and of two names at most one stands
/// before the other.
pub proof fn lemma_name_before_asymmetric(x: Seq<char>, y: Seq<char>)
    ensures
        !(name_before(x, y) && name_before(y, x)),
        !name_before(x, x),
    decreases x.len(),
{
    if x.len() > 0 {
        lemma_name_before_asymmetric(x.drop_first(), x.drop_first());
        if y.len() > 0 {
            lemma_name_before_asymmetric(x.drop_first(), y.drop_first());
        }
    }
}

/// Of two different names one stands before the other.
pub proof fn lemma_name_before_total(x: Seq<char>, y: Seq<char>)
    requires
        x != y,
    ensures
        name_before(x, y) || name_before(y, x),
    decreases x.len(),
{
    if x.len() > 0 && y.len() > 0 && x[0] == y[0] {
        if x.drop_first() == y.drop_first() {
            assert(x =~= seq![x[0]] + x.drop_first());
            assert(y =~= seq![y[0]] + y.drop_first());
        }
        lemma_name_before_total(x.drop_first(), y.drop_first());
    } else if x.len() == 0 && y.len() == 0 {
        assert(x =~= y);
    }
}

/// The order of names is transitive.
pub proof fn lemma_name_before_transitive(x: Seq<char>, y: Seq<char>, z: Seq<char>)
    requires
        name_before(x, y),
        name_before(y, z),
    ensures
        name_before(x, z),
    decreases x.len(),
{
    if x.len() > 0 && y.len() > 0 && z.len() > 0 && x[0] == y[0] && y[0] == z[0] {
        lemma_name_before_transitive(x.drop_first(), y.drop_first(), z.drop_first());
    }
}

/// Whether the name `x` stands before the name `y`.
pub fn name_less(x: &str, y: &str) -> (less: bool)
    ensures
        less == name_before(x@, y@),
{
    let nx = x.unicode_len();
    let ny = y.unicode_len();
    let mut i: usize = 0;
    proof {
        assert(x@.skip(0) == x@);
        assert(y@.skip(0) == y@);
    }
    while i < nx && i < ny
        invariant
            nx == x@.len(),
            ny == y@.len(),
            i <= nx,
            i <= ny,
            name_before(x@, y@) == name_before(x@.skip(i as int), y@.skip(i as int)),
        decreases nx - i,
    {
        let cx = x.get_char(i);
        let cy = y.get_char(i);
        proof {
            let rx = x@.skip(i as int);
            let ry = y@.skip(i as int);
            assert(rx[0] == cx && ry[0] == cy);
            assert(rx.drop_first() == x@.skip(i + 1));
            assert(ry.drop_first() == y@.skip(i + 1));
        }
        if cx != cy {
            return (cx as u32) < (cy as u32);
        }
        i += 1;
    }
    i < ny
}

} // verus!
