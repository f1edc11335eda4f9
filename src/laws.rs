use vstd::prelude::*;
use crate::formatter::{
    Layout, Piece, at_line_start, blanks, put_char, put_str, step, run, fresh, layout, list_text,
};
use crate::type_def::{TypeDef, attrs_text, opt_docs_text};
use crate::bound::{Bound, bounds_text, bound_line, bound_lines};
use crate::variant::{DiscriminantVariant, discriminant_text};
use crate::scope::{
    Scope, ImportView, lookup_import, with_import, scope_pieces, rendered, preamble_text, items_pieces, imports_text, all_vis, distinct,
};
use crate::import::Import;
use crate::import_table::{key_index, lemma_key_index};

verus! {

/// The cursor stands in the indentation of its line: only spaces precede
/// it since the last newline.
pub open spec fn in_indent(s: Seq<char>) -> bool
    decreases s.len(),
{
    if s.len() == 0 {
        true
    } else if s.last() == '\n' {
        true
    } else if s.last() == ' ' {
        in_indent(s.drop_last())
    } else {
        false
    }
}

/// The text without the spaces that open each of its lines.
pub open spec fn strip_indent(s: Seq<char>) -> Seq<char>
    decreases s.len(),
{
    if s.len() == 0 {
        Seq::empty()
    } else {
        let p = strip_indent(s.drop_last());
        if s.last() == ' ' && in_indent(s.drop_last()) {
            p
        } else {
            p.push(s.last())
        }
    }
}

/// Two layouts that differ only in the width of their indentation.
pub open spec fn same_but_indent(a: Layout, b: Layout) -> bool {
    &&& strip_indent(a.buf) == strip_indent(b.buf)
    &&& in_indent(a.buf) == in_indent(b.buf)
    &&& at_line_start(a.buf) == at_line_start(b.buf)
    &&& a.levels.len() == b.levels.len()
}

proof fn lemma_push(s: Seq<char>, c: char)
    ensures
        (s.push(c)).drop_last() == s,
        (s.push(c)).last() == c,
{
    assert((s.push(c)).drop_last() =~= s);
}

proof fn lemma_blanks(s: Seq<char>, n: nat)
    requires
        in_indent(s),
    ensures
        strip_indent(s + blanks(n)) == strip_indent(s),
        in_indent(s + blanks(n)),
    decreases n,
{
    if n == 0 {
        assert(s + blanks(0) =~= s);
    } else {
        lemma_blanks(s, (n - 1) as nat);
        let t = s + blanks((n - 1) as nat);
        assert(s + blanks(n) =~= t.push(' '));
        lemma_push(t, ' ');
    }
}

proof fn lemma_put_char(a: Layout, b: Layout, c: char)
    requires
        same_but_indent(a, b),
    ensures
        same_but_indent(put_char(a, c), put_char(b, c)),
{
    if c != '\n' && at_line_start(a.buf) {
        assert(in_indent(a.buf) && in_indent(b.buf)) by {
            if a.buf.len() > 0 { assert(a.buf.last() == '\n'); }
            if b.buf.len() > 0 { assert(b.buf.last() == '\n'); }
        }
        lemma_blanks(a.buf, crate::formatter::depth(a.levels));
        lemma_blanks(b.buf, crate::formatter::depth(b.levels));
        let x = a.buf + blanks(crate::formatter::depth(a.levels));
        let y = b.buf + blanks(crate::formatter::depth(b.levels));
        assert(x + seq![c] =~= x.push(c));
        assert(y + seq![c] =~= y.push(c));
        lemma_push(x, c);
        lemma_push(y, c);
    } else {
        lemma_push(a.buf, c);
        lemma_push(b.buf, c);
    }
}

proof fn lemma_put_str(a: Layout, b: Layout, s: Seq<char>)
    requires
        same_but_indent(a, b),
    ensures
        same_but_indent(put_str(a, s), put_str(b, s)),
    decreases s.len(),
{
    if s.len() > 0 {
        lemma_put_str(a, b, s.drop_last());
        lemma_put_char(put_str(a, s.drop_last()), put_str(b, s.drop_last()), s.last());
    }
}

proof fn lemma_step(a: Layout, b: Layout, p: Piece)
    requires
        same_but_indent(a, b),
    ensures
        same_but_indent(step(a, p), step(b, p)),
{
    match p {
        Piece::Text(s) => lemma_put_str(a, b, s),
        Piece::Space => {
            if !at_line_start(a.buf) {
                lemma_put_char(a, b, ' ');
            }
        },
        _ => {},
    }
}

/// Laying out the same pieces keeps two layouts that differ only in the
/// width of their indentation so.
pub proof fn lemma_run_same_but_indent(a: Layout, b: Layout, ps: Seq<Piece>)
    requires
        same_but_indent(a, b),
    ensures
        same_but_indent(run(a, ps), run(b, ps)),
    decreases ps.len(),
{
    if ps.len() > 0 {
        lemma_run_same_but_indent(a, b, ps.drop_last());
        lemma_step(run(a, ps.drop_last()), run(b, ps.drop_last()), ps.last());
    }
}

/// Changing the indentation unit changes only the spaces that open each
/// line: with those removed, the texts are the same, line for line and
/// token for token.
pub proof fn lemma_indent_unit_changes_only_indentation(ps: Seq<Piece>, u1: usize, u2: usize)
    ensures
        strip_indent(layout(ps, u1)) == strip_indent(layout(ps, u2)),
{
    lemma_run_same_but_indent(fresh(u1), fresh(u2), ps);
}

/// The same holds of a whole scope rendered with two indentation units.
pub proof fn lemma_scope_indent_unit(s: Scope, u1: usize, u2: usize)
    ensures
        strip_indent(layout(scope_pieces(s), u1)) == strip_indent(layout(scope_pieces(s), u2)),
{
    lemma_indent_unit_changes_only_indentation(scope_pieces(s), u1, u2);
}

/// A new formatter given the unit `u` with `set_indent` stands where a
/// fresh layout of unit `u` does, so the law above covers rendering through
/// `Formatter::new`, `set_indent` and `Scope::fmt`.
pub proof fn lemma_set_indent_fresh(u: usize)
    ensures
        (Layout { unit: u, ..fresh(4) }) == fresh(u),
{
}

/// Rendering is a function of the model: equal models render to equal text.
pub proof fn lemma_render_is_pure(a: Scope, b: Scope)
    requires
        a == b,
    ensures
        rendered(a) == rendered(b),
        forall|u: usize| layout(scope_pieces(a), u) == layout(scope_pieces(b), u),
{
}

/// An empty scope renders as the empty string.
pub proof fn lemma_empty_scope(s: Scope)
    requires
        s.docs is None,
        s.attrs@.len() == 0,
        s.imports.view().len() == 0,
        s.items@.len() == 0,
    ensures
        rendered(s) == Seq::<char>::empty(),
{
    let t = s.imports.view();
    assert(all_vis(t) =~= Seq::<Option<Seq<char>>>::empty());
    assert(distinct(all_vis(t)) =~= Seq::<Option<Seq<char>>>::empty());
    assert(imports_text(t) =~= Seq::<char>::empty());
    assert(preamble_text(s) =~= Seq::<char>::empty());
    assert(scope_pieces(s) =~= seq![Piece::Text(Seq::empty())] + Seq::empty());
    assert(items_pieces(s.items@) =~= Seq::<Piece>::empty());
    let ps = scope_pieces(s);
    assert(ps =~= seq![Piece::Text(Seq::empty())]);
    crate::formatter::lemma_run_one(fresh(4), Piece::Text(Seq::empty()));
}

/// With a lint allowance, a derive list and a representation set, and no
/// documentation or macros, the attribute lines come in the order allow,
/// derive, repr, each on a line of its own.
pub proof fn lemma_attribute_order(td: TypeDef)
    requires
        td.docs is None,
        td.allow is Some,
        td.derive@.len() > 0,
        td.repr is Some,
        td.macros@.len() == 0,
    ensures
        attrs_text(td) == "#[allow("@ + td.allow->0@ + ")]\n"@
            + list_text(td.derive@, "#[derive("@, ", "@, ")]\n"@)
            + "#[repr("@ + td.repr->0@ + ")]\n"@,
{
    let w = crate::formatter::wrapped_lines(crate::formatter::views(td.macros@), ""@, "\n"@);
    assert(crate::formatter::views(td.macros@) =~= Seq::<Seq<char>>::empty());
    assert(w =~= Seq::<char>::empty());
    assert(opt_docs_text(td.docs) =~= Seq::<char>::empty());
    assert(attrs_text(td) =~= "#[allow("@ + td.allow->0@ + ")]\n"@
        + list_text(td.derive@, "#[derive("@, ", "@, ")]\n"@)
        + "#[repr("@ + td.repr->0@ + ")]\n"@);
}

/// A where-clause of two bounds: the first line opens with `where `, the
/// second with padding as wide as `where `, made of spaces only.
pub proof fn lemma_where_alignment(bs: Seq<Bound>)
    requires
        bs.len() == 2,
    ensures
        bounds_text(bs) == "\n"@ + ("where "@ + bs[0].name@ + ": "@ + crate::bound::bound_rhs_text(bs[0].bound@) + ",\n"@)
            + ("      "@ + bs[1].name@ + ": "@ + crate::bound::bound_rhs_text(bs[1].bound@) + ",\n"@),
        "      "@.len() == "where "@.len(),
        forall|i: int| 0 <= i < "      "@.len() ==> "      "@[i] == ' ',
{
    let d = bs.drop_last();
    assert(d.last() == bs[0]);
    assert(bound_lines(d.drop_last()) == Seq::<char>::empty());
    assert(bound_lines(d) =~= bound_line(bs[0], true));
    assert(bound_lines(bs) == bound_lines(d) + bound_line(bs[1], false));
    lemma_padding();
}

proof fn lemma_padding()
    ensures
        "      "@.len() == "where "@.len(),
        forall|i: int| 0 <= i < "      "@.len() ==> "      "@[i] == ' ',
{
    reveal_strlit("      ");
    reveal_strlit("where ");
}

/// A variant without a discriminant renders as its name and a comma, with
/// no value made up; one with a discriminant renders `name = value,`.
pub proof fn lemma_discriminant(v: DiscriminantVariant)
    ensures
        v.discriminant is None ==> discriminant_text(v) == v.name@ + ",\n"@,
        v.discriminant is Some ==> discriminant_text(v) == v.name@ + " = "@ + v.discriminant->0@ + ",\n"@,
{
    if v.discriminant is None {
        assert(discriminant_text(v) =~= v.name@ + ",\n"@);
    } else {
        reveal_strlit("");
        assert(discriminant_text(v) =~= v.name@ + " = "@ + v.discriminant->0@ + ",\n"@);
    }
}

proof fn lemma_key_index_same_keys<V>(a: Seq<(Seq<char>, V)>, b: Seq<(Seq<char>, V)>, k: Seq<char>)
    requires
        a.len() == b.len(),
        forall|x: int| 0 <= x < a.len() ==> a[x].0 == b[x].0,
    ensures
        key_index(a, k) == key_index(b, k),
    decreases a.len(),
{
    if a.len() > 0 {
        let (da, db) = (a.drop_last(), b.drop_last());
        assert(forall|x: int| 0 <= x < da.len() ==> da[x] == a[x] && db[x] == b[x]);
        lemma_key_index_same_keys(da, db, k);
    }
}

/// Importing a name from a path that already imports it changes nothing:
/// the table after two imports of the same pair is the table after one, and
/// the import found is the one made first.
pub proof fn lemma_import_twice(t: ImportView, path: Seq<char>, name: Seq<char>, imp: Import)
    ensures
        lookup_import(with_import(t, path, name, imp), path, name) == Some(imp),
        with_import(with_import(t, path, name, imp), path, name, imp) == with_import(t, path, name, imp),
        imports_text(with_import(with_import(t, path, name, imp), path, name, imp))
            == imports_text(with_import(t, path, name, imp)),
{
    let t1 = with_import(t, path, name, imp);
    lemma_key_index(t, path);
    let i = key_index(t, path);
    if i < 0 {
        let k = t.len() as int;
        assert(t1 == t.push((path, seq![(name, imp)])));
        lemma_key_index(t1, path);
        assert(forall|j: int| 0 <= j < t.len() ==> t1[j] == t[j]);
        assert(key_index(t1, path) == k);
        let names = seq![(name, imp)];
        lemma_key_index(names, name);
        assert(key_index(names, name) == 0);
        assert(names.update(0, (name, imp)) =~= names);
        assert(t1.update(k, (path, names)) =~= t1);
    } else {
        let names = t[i].1;
        lemma_key_index(names, name);
        let j = key_index(names, name);
        let n1 = if j < 0 { names.push((name, imp)) } else { names.update(j, (name, imp)) };
        assert(t1 == t.update(i, (path, n1)));
        lemma_key_index(t1, path);
        assert(forall|x: int| 0 <= x < t.len() && x != i ==> t1[x] == t[x]);
        lemma_key_index_same_keys(t, t1, path);
        lemma_key_index(n1, name);
        if j < 0 {
            assert(forall|x: int| 0 <= x < names.len() ==> n1[x] == names[x]);
            assert(key_index(n1, name) == names.len());
        } else {
            assert(forall|x: int| 0 <= x < names.len() && x != j ==> n1[x] == names[x]);
            lemma_key_index_same_keys(names, n1, name);
        }
        let j1 = key_index(n1, name);
        assert(n1.update(j1, (name, imp)) =~= n1);
        assert(t1.update(i, (path, n1)) =~= t1);
    }
}

} // verus!
