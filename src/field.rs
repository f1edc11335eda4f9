use vstd::prelude::*;
use crate::formatter::{
    Formatter, put_str, lemma_write_after, lemma_put_str_concat, opt_text, fmt_opt, wrapped_lines,
    fmt_wrapped_lines, views,
};
use crate::ty::{Type, type_text};

verus! {

/// A named field of a struct or variant.
pub struct Field {
    pub name: String,
    pub ty: Type,
    /// Lines of documentation.
    pub documentation: Vec<String>,
    /// Lines written verbatim before the field, such as attributes.
    pub annotation: Vec<String>,
    pub vis: Option<String>,
}

/// A field named `name` of the type named `ty`, without generics,
/// documentation, annotations or visibility.
pub open spec fn is_bare_field(f: Field, name: Seq<char>, ty: Seq<char>) -> bool {
    &&& f.name@ == name
    &&& f.ty.name@ == ty
    &&& f.ty.generics@.len() == 0
    &&& f.documentation@.len() == 0
    &&& f.annotation@.len() == 0
    &&& f.vis is None
}

/// A field as it stands in a braced body: its documentation lines, its
/// annotation lines, then `[vis ]name: type,`.
pub open spec fn field_text(f: Field) -> Seq<char> {
    wrapped_lines(views(f.documentation@), "/// "@, "\n"@)
        + wrapped_lines(views(f.annotation@), ""@, "\n"@)
        + opt_text(f.vis, ""@, " "@)
        + f.name@ + ": "@ + type_text(f.ty) + ",\n"@
}

/// The views of the string slices.
pub open spec fn str_views(v: Seq<&str>) -> Seq<Seq<char>> {
    v.map_values(|s: &str| s@)
}

/// Copies the strings into owned strings.
fn to_strings(v: Vec<&str>) -> (r: Vec<String>)
    ensures
        views(r@) == str_views(v@),
{
    let mut r: Vec<String> = Vec::new();
    let mut i: usize = 0;
    while i < v.len()
        invariant
            0 <= i <= v@.len(),
            views(r@) == str_views(v@.take(i as int)),
        decreases v@.len() - i,
    {
        let ghost prev = r@;
        r.push(String::from_str(v[i]));
        proof {
            assert(views(r@) =~= views(prev).push(v@[i as int]@));
            assert(str_views(v@.take(i + 1)) =~= str_views(v@.take(i as int)).push(v@[i as int]@));
        }
        i = i + 1;
    }
    assert(v@.take(i as int) =~= v@);
    r
}

impl Field {
    /// Returns a field with the given name and type, and nothing else.
    pub fn new(name: &str, ty: &str) -> (r: Field)
        ensures
            is_bare_field(r, name@, ty@),
    {
        Field {
            name: String::from_str(name),
            ty: Type::new(ty),
            documentation: Vec::new(),
            annotation: Vec::new(),
            vis: None,
        }
    }

    /// Sets the lines of documentation.
    pub fn doc(&mut self, documentation: Vec<&str>) -> (r: &mut Self)
        ensures
            *r == (Field { documentation: r.documentation, ..*old(self) }),
            views(r.documentation@) == str_views(documentation@),
            *final(self) == *final(r),
    {
        self.documentation = to_strings(documentation);
        self
    }

    /// Sets the lines written before the field.
    pub fn annotation(&mut self, annotation: Vec<&str>) -> (r: &mut Self)
        ensures
            *r == (Field { annotation: r.annotation, ..*old(self) }),
            views(r.annotation@) == str_views(annotation@),
            *final(self) == *final(r),
    {
        self.annotation = to_strings(annotation);
        self
    }

    /// Sets the visibility.
    pub fn vis(&mut self, vis: &str) -> (r: &mut Self)
        ensures
            *r == (Field { vis: Some(r.vis->0), ..*old(self) }),
            r.vis->0@ == vis@,
            *final(self) == *final(r),
    {
        self.vis = Some(String::from_str(vis));
        self
    }

    /// Writes the field as it stands in a braced body.
    pub fn fmt(&self, fmt: &mut Formatter)
        requires
            old(fmt).wf(),
        ensures
            final(fmt).wf(),
            final(fmt)@ == put_str(old(fmt)@, field_text(*self)),
    {
        let ghost st0 = fmt@;
        let ghost mut acc: Seq<char> = Seq::empty();
        fmt_wrapped_lines(&self.documentation, "/// ", "\n", fmt);
        proof {
            lemma_put_str_concat(st0, acc, wrapped_lines(views(self.documentation@), "/// "@, "\n"@));
            acc = acc + wrapped_lines(views(self.documentation@), "/// "@, "\n"@);
        }
        fmt_wrapped_lines(&self.annotation, "", "\n", fmt);
        proof {
            lemma_put_str_concat(st0, acc, wrapped_lines(views(self.annotation@), ""@, "\n"@));
            acc = acc + wrapped_lines(views(self.annotation@), ""@, "\n"@);
        }
        fmt_opt(&self.vis, "", " ", fmt);
        proof {
            lemma_put_str_concat(st0, acc, opt_text(self.vis, ""@, " "@));
            acc = acc + opt_text(self.vis, ""@, " "@);
        }
        fmt.write(self.name.as_str());
        proof {
            lemma_write_after(st0, acc, self.name@);
            acc = acc + self.name@;
        }
        fmt.write(": ");
        proof {
            lemma_write_after(st0, acc, ": "@);
            acc = acc + ": "@;
        }
        self.ty.fmt(fmt);
        proof {
            lemma_put_str_concat(st0, acc, type_text(self.ty));
            acc = acc + type_text(self.ty);
        }
        fmt.write(",\n");
        proof {
            lemma_write_after(st0, acc, ",\n"@);
            acc = acc + ",\n"@;
            assert(acc =~= field_text(*self));
        }
    }
}

} // verus!
