use vstd::prelude::*;
use crate::formatter::{Formatter, Piece, put_str, lemma_run_one, lemma_put_str_concat};

verus! {

/// A type reference: a name and its generic arguments.
pub struct Type {
    pub name: String,
    pub generics: Vec<Type>,
}

/// How a type reads: its name, then its generic arguments between angle
/// brackets, separated by commas, if it has any.
pub open spec fn type_text(t: Type) -> Seq<char>
    decreases t, 1nat,
{
    t.name@ + angled(t.generics@)
}

/// The types between angle brackets, separated by commas, or nothing when there are none.
pub open spec fn angled(ts: Seq<Type>) -> Seq<char>
    decreases ts, 1nat,
{
    if ts.len() == 0 {
        Seq::empty()
    } else {
        "<"@ + types_text(ts, ", "@) + ">"@
    }
}

/// The texts of the types, joined by the separator.
pub open spec fn types_text(ts: Seq<Type>, sep: Seq<char>) -> Seq<char>
    decreases ts, 0nat,
{
    if ts.len() == 0 {
        Seq::empty()
    } else if ts.len() == 1 {
        type_text(ts[0])
    } else {
        types_text(ts.drop_last(), sep) + sep + type_text(ts.last())
    }
}

impl Type {
    /// Returns a type with the given name and no generic arguments.
    pub fn new(name: &str) -> (r: Type)
        ensures
            r.name@ == name@,
            r.generics@.len() == 0,
    {
        Type { name: String::from_str(name), generics: Vec::new() }
    }

    /// Adds a generic argument.
    pub fn generic(&mut self, ty: &str) -> (r: &mut Self)
        requires
            !old(self).name@.contains('<'),
        ensures
            r.name == old(self).name,
            r.generics@.len() == old(self).generics@.len() + 1,
            r.generics@.drop_last() == old(self).generics@,
            r.generics@.last().name@ == ty@,
            r.generics@.last().generics@.len() == 0,
            *final(self) == *final(r),
    {
        self.generics.push(Type::new(ty));
        self
    }

    /// Writes the type.
    pub fn fmt(&self, fmt: &mut Formatter)
        requires
            old(fmt).wf(),
        ensures
            final(fmt).wf(),
            final(fmt)@ == put_str(old(fmt)@, type_text(*self)),
        decreases self, 1nat,
    {
        let ghost st0 = fmt@;
        fmt.write(self.name.as_str());
        proof { lemma_run_one(st0, Piece::Text(self.name@)); }
        fmt_angled(&self.generics, fmt);
        proof { lemma_put_str_concat(st0, self.name@, angled(self.generics@)); }
    }
}

/// Writes the types between angle brackets, separated by commas, or
/// nothing when there are none.
fn fmt_angled(tys: &Vec<Type>, fmt: &mut Formatter)
    requires
        old(fmt).wf(),
    ensures
        final(fmt).wf(),
        final(fmt)@ == put_str(old(fmt)@, angled(tys@)),
    decreases tys@, 1nat,
{
    if tys.len() > 0 {
        let ghost st0 = fmt@;
        fmt.write("<");
        proof { lemma_run_one(st0, Piece::Text("<"@)); }
        fmt_types(tys, ", ", fmt);
        proof { lemma_put_str_concat(st0, "<"@, types_text(tys@, ", "@)); }
        let ghost st1 = fmt@;
        fmt.write(">");
        proof {
            lemma_run_one(st1, Piece::Text(">"@));
            lemma_put_str_concat(st0, "<"@ + types_text(tys@, ", "@), ">"@);
        }
    }
}

/// Writes the types joined by `sep`.
pub fn fmt_types(tys: &Vec<Type>, sep: &str, fmt: &mut Formatter)
    requires
        old(fmt).wf(),
    ensures
        final(fmt).wf(),
        final(fmt)@ == put_str(old(fmt)@, types_text(tys@, sep@)),
    decreases tys@, 0nat,
{
    let ghost st0 = fmt@;
    let mut i: usize = 0;
    while i < tys.len()
        invariant
            0 <= i <= tys@.len(),
            fmt.wf(),
            fmt@ == put_str(st0, types_text(tys@.take(i as int), sep@)),
        decreases tys@.len() - i,
    {
        let ghost acc = types_text(tys@.take(i as int), sep@);
        if i > 0 {
            let ghost st1 = fmt@;
            fmt.write(sep);
            proof {
                lemma_run_one(st1, Piece::Text(sep@));
                lemma_put_str_concat(st0, acc, sep@);
            }
        }
        assert(decreases_to!(tys@ => tys@[i as int]));
        tys[i].fmt(fmt);
        proof {
            let t = tys@.take(i + 1);
            assert(t.drop_last() =~= tys@.take(i as int));
            assert(t.last() == tys@[i as int]);
            if i > 0 {
                lemma_put_str_concat(st0, acc + sep@, type_text(tys@[i as int]));
            } else {
                assert(t.len() == 1);
                assert(acc =~= Seq::<char>::empty());
                assert(Seq::<char>::empty() + type_text(tys@[i as int]) =~= type_text(tys@[i as int]));
                lemma_put_str_concat(st0, acc, type_text(tys@[i as int]));
            }
        }
        i = i + 1;
    }
    assert(tys@.take(i as int) =~= tys@);
}

} // verus!
