use vstd::prelude::*;

verus! {

/// A `use` statement of one name from one path.
pub struct Import {
    /// The full path of the imported name.
    pub line: String,
    pub vis: Option<String>,
}

impl Import {
    /// Returns a private import of `ty` from `path`.
    pub fn new(path: &str, ty: &str) -> (r: Import)
        ensures
            r.line@ == path@ + "::"@ + ty@,
            r.vis is None,
    {
        let mut line = String::from_str(path);
        line.append("::");
        line.append(ty);
        Import { line, vis: None }
    }

    /// Sets the visibility.
    pub fn vis(&mut self, vis: &str) -> (r: &mut Self)
        ensures
            r.line == old(self).line,
            r.vis is Some,
            r.vis->0@ == vis@,
            *final(self) == *final(r),
    {
        self.vis = Some(String::from_str(vis));
        self
    }
}

} // verus!
