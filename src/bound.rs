use vstd::prelude::*;
use crate::formatter::{Formatter, put_str, lemma_write_after, lemma_put_str_concat};
use crate::ty::{Type, types_text, fmt_types};

verus! {

/// A where-bound: a name and the types it is bound by.
pub struct Bound {
    pub name: String,
    pub bound: Vec<Type>,
}

/// The bound types, joined by ` + `.
pub open spec fn bound_rhs_text(tys: Seq<Type>) -> Seq<char> {
    types_text(tys, " + "@)
}

/// One line of a where-clause. The first opens with `where `; the others
/// are padded with as many spaces, so that the names line up.
pub open spec fn bound_line(b: Bound, first: bool) -> Seq<char> {
    (if first { "where "@ } else { "      "@ }) + b.name@ + ": "@ + bound_rhs_text(b.bound@) + ",\n"@
}

/// The lines of a where-clause, one per bound.
pub open spec fn bound_lines(bs: Seq<Bound>) -> Seq<char>
    decreases bs.len(),
{
    if bs.len() == 0 {
        Seq::empty()
    } else {
        bound_lines(bs.drop_last()) + bound_line(bs.last(), bs.len() == 1)
    }
}

/// A where-clause on lines of its own, or nothing when there are no bounds.
pub open spec fn bounds_text(bs: Seq<Bound>) -> Seq<char> {
    if bs.len() == 0 {
        Seq::empty()
    } else {
        "\n"@ + bound_lines(bs)
    }
}

/// The bound of `name` by the single type named `ty`, without generics.
pub open spec fn is_simple_bound(b: Bound, name: Seq<char>, ty: Seq<char>) -> bool {
    &&& b.name@ == name
    &&& b.bound@.len() == 1
    &&& b.bound@[0].name@ == ty
    &&& b.bound@[0].generics@.len() == 0
}

impl Bound {
    /// Returns a bound of `name` by the single type `ty`.
    pub fn new(name: &str, ty: &str) -> (r: Bound)
        ensures
            is_simple_bound(r, name@, ty@),
    {
        let mut bound: Vec<Type> = Vec::new();
        bound.push(Type::new(ty));
        Bound { name: String::from_str(name), bound }
    }
}

/// Writes the bound types joined by ` + `.
pub fn fmt_bound_rhs(tys: &Vec<Type>, fmt: &mut Formatter)
    requires
        old(fmt).wf(),
    ensures
        final(fmt).wf(),
        final(fmt)@ == put_str(old(fmt)@, bound_rhs_text(tys@)),
{
    fmt_types(tys, " + ", fmt);
}

/// Writes a where-clause: nothing when there are no bounds, else a newline
/// and one line per bound, aligned under the first.
pub fn fmt_bounds(bounds: &Vec<Bound>, fmt: &mut Formatter)
    requires
        old(fmt).wf(),
    ensures
        final(fmt).wf(),
        final(fmt)@ == put_str(old(fmt)@, bounds_text(bounds@)),
{
    if bounds.len() == 0 {
        return;
    }
    let ghost st0 = fmt@;
    fmt.write("\n");
    proof {
        lemma_write_after(st0, Seq::empty(), "\n"@);
        assert(Seq::<char>::empty() + "\n"@ =~= "\n"@);
    }
    let mut i: usize = 0;
    while i < bounds.len()
        invariant
            0 <= i <= bounds@.len(),
            fmt.wf(),
            fmt@ == put_str(st0, "\n"@ + bound_lines(bounds@.take(i as int))),
        decreases bounds@.len() - i,
    {
        let ghost acc = "\n"@ + bound_lines(bounds@.take(i as int));
        let b = &bounds[i];
        let pre = if i == 0 { "where " } else { "      " };
        fmt.write(pre);
        proof { lemma_write_after(st0, acc, pre@); }
        fmt.write(b.name.as_str());
        proof { lemma_write_after(st0, acc + pre@, b.name@); }
        fmt.write(": ");
        proof { lemma_write_after(st0, acc + pre@ + b.name@, ": "@); }
        fmt_bound_rhs(&b.bound, fmt);
        proof { lemma_put_str_concat(st0, acc + pre@ + b.name@ + ": "@, bound_rhs_text(b.bound@)); }
        fmt.write(",\n");
        proof {
            lemma_write_after(st0, acc + pre@ + b.name@ + ": "@ + bound_rhs_text(b.bound@), ",\n"@);
            let t = bounds@.take(i + 1);
            assert(t.drop_last() =~= bounds@.take(i as int));
            assert(t.last() == *b);
            assert(acc + pre@ + b.name@ + ": "@ + bound_rhs_text(b.bound@) + ",\n"@
                =~= "\n"@ + bound_lines(t));
        }
        i = i + 1;
    }
    assert(bounds@.take(i as int) =~= bounds@);
}

/// An associated type of a trait, with the bounds it must meet.
pub struct AssociatedType(pub Bound);

impl AssociatedType {
    /// Adds a bound on the associated type.
    pub fn bound(&mut self, ty: &str) -> (r: &mut Self)
        ensures
            r.0.name == old(self).0.name,
            r.0.bound@.drop_last() == old(self).0.bound@,
            r.0.bound@.len() == old(self).0.bound@.len() + 1,
            r.0.bound@.last().name@ == ty@,
            r.0.bound@.last().generics@.len() == 0,
            *final(self) == *final(r),
    {
        self.0.bound.push(Type::new(ty));
        self
    }
}

} // verus!
