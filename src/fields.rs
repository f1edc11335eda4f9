use vstd::prelude::*;
use crate::formatter::{
    Format, Formatter, Piece, put_str, run, text, braced, open_block, close_block, lemma_run_one,
    lemma_run3, lemma_write_after, lemma_put_str_concat,
};
use crate::field::{Field, field_text, is_bare_field};
use crate::ty::{Type, types_text, fmt_types};

verus! {

/// The body of a struct or variant: nothing, a list of types, or a list of
/// named fields. A body that holds fields of one kind takes no field of the
/// other.
pub enum Fields {
    Empty,
    Tuple(Vec<Type>),
    Named(Vec<Field>),
}

/// The named fields, in order; none unless the body is named.
pub open spec fn named_fields(f: Fields) -> Seq<Field> {
    match f {
        Fields::Named(v) => v@,
        _ => Seq::empty(),
    }
}

/// The tuple fields, in order; none unless the body is a tuple.
pub open spec fn tuple_fields(f: Fields) -> Seq<Type> {
    match f {
        Fields::Tuple(v) => v@,
        _ => Seq::empty(),
    }
}

/// The lines of the named fields, one field after the other.
pub open spec fn named_text(fs: Seq<Field>) -> Seq<char>
    decreases fs.len(),
{
    if fs.len() == 0 {
        Seq::empty()
    } else {
        named_text(fs.drop_last()) + field_text(fs.last())
    }
}

/// Empty renders nothing; a tuple renders its types between parentheses,
/// separated by commas; named fields render as a brace block, one per line.
pub open spec fn fields_pieces(f: Fields) -> Seq<Piece> {
    match f {
        Fields::Empty => Seq::empty(),
        Fields::Tuple(ts) => text("("@ + types_text(ts@, ", "@) + ")"@),
        Fields::Named(fs) => braced(text(named_text(fs@))),
    }
}

impl Fields {
    /// Adds a named field.
    pub fn push_named(&mut self, field: Field) -> (r: &mut Self)
        requires
            !(*old(self) is Tuple),
        ensures
            *r is Named,
            named_fields(*r) == named_fields(*old(self)).push(field),
            *final(self) == *final(r),
    {
        match self {
            Fields::Empty => {
                let mut v: Vec<Field> = Vec::new();
                v.push(field);
                *self = Fields::Named(v);
                proof { assert(named_fields(*self) =~= named_fields(*old(self)).push(field)); }
            },
            Fields::Named(fields) => {
                fields.push(field);
            },
            Fields::Tuple(_) => {},
        }
        self
    }

    /// Adds a named field of the given name and type.
    pub fn named(&mut self, name: &str, ty: &str) -> (r: &mut Self)
        requires
            !(*old(self) is Tuple),
        ensures
            *r is Named,
            named_fields(*r).drop_last() == named_fields(*old(self)),
            named_fields(*r).len() == named_fields(*old(self)).len() + 1,
            is_bare_field(named_fields(*r).last(), name@, ty@),
            *final(self) == *final(r),
    {
        let field = Field::new(name, ty);
        self.push_named(field)
    }

    /// Adds a tuple field of the given type.
    pub fn tuple(&mut self, ty: &str) -> (r: &mut Self)
        requires
            !(*old(self) is Named),
        ensures
            *r is Tuple,
            tuple_fields(*r).drop_last() == tuple_fields(*old(self)),
            tuple_fields(*r).len() == tuple_fields(*old(self)).len() + 1,
            tuple_fields(*r).last().name@ == ty@,
            tuple_fields(*r).last().generics@.len() == 0,
            *final(self) == *final(r),
    {
        match self {
            Fields::Empty => {
                let mut v: Vec<Type> = Vec::new();
                v.push(Type::new(ty));
                *self = Fields::Tuple(v);
            },
            Fields::Tuple(tys) => {
                tys.push(Type::new(ty));
            },
            Fields::Named(_) => {},
        }
        self
    }
}

/// Writes the named fields, one after the other.
fn fmt_named(fields: &Vec<Field>, fmt: &mut Formatter)
    requires
        old(fmt).wf(),
    ensures
        final(fmt).wf(),
        final(fmt)@ == put_str(old(fmt)@, named_text(fields@)),
{
    let ghost st0 = fmt@;
    let mut i: usize = 0;
    while i < fields.len()
        invariant
            0 <= i <= fields@.len(),
            fmt.wf(),
            fmt@ == put_str(st0, named_text(fields@.take(i as int))),
        decreases fields@.len() - i,
    {
        fields[i].fmt(fmt);
        proof {
            lemma_put_str_concat(st0, named_text(fields@.take(i as int)), field_text(fields@[i as int]));
            assert(fields@.take(i + 1).drop_last() =~= fields@.take(i as int));
        }
        i = i + 1;
    }
    assert(fields@.take(i as int) =~= fields@);
}

impl Format for Fields {
    open spec fn pieces(&self) -> Seq<Piece> {
        fields_pieces(*self)
    }

    open spec fn renders(&self) -> bool {
        true
    }

    fn fmt(&self, fmt: &mut Formatter) {
        let ghost st0 = fmt@;
        match self {
            Fields::Named(fields) => {
                fmt.block_start();
                let ghost st1 = fmt@;
                fmt_named(fields, fmt);
                proof { lemma_run_one(st1, Piece::Text(named_text(fields@))); }
                fmt.block_end();
                proof { lemma_run3(st0, open_block(), text(named_text(fields@)), close_block()); }
            },
            Fields::Tuple(tys) => {
                fmt.write("(");
                proof {
                    lemma_write_after(st0, Seq::empty(), "("@);
                    assert(Seq::<char>::empty() + "("@ =~= "("@);
                }
                fmt_types(tys, ", ", fmt);
                proof { lemma_put_str_concat(st0, "("@, types_text(tys@, ", "@)); }
                fmt.write(")");
                proof {
                    lemma_write_after(st0, "("@ + types_text(tys@, ", "@), ")"@);
                    lemma_run_one(st0, Piece::Text("("@ + types_text(tys@, ", "@) + ")"@));
                }
            },
            Fields::Empty => {
                proof { assert(run(st0, Seq::empty()) == st0); }
            },
        }
    }
}

} // verus!
