//! Named debug scopes nested in their parents.
use vstd::prelude::*;
use crate::debug::debug_closeable::DebugCloseable;
use crate::debug::indent::Indent;
use crate::text::push_text;

verus! {

/// A named scope, possibly inside a parent scope, with an optional
/// indentation that it undoes when closed.
pub struct Scope {
    /// The scope's name.
    pub name: String,
    /// The enclosing scope.
    pub parent: Option<Box<Scope>>,
    /// The indentation of the scope.
    pub indent: Option<Indent>,
    /// Whether the scope is closed.
    pub closed: bool,
}

/// The names from the outermost scope down to this one, joined by `.`.
pub open spec fn qualified_name(s: Scope) -> Seq<char>
    decreases s,
{
    match s.parent {
        Some(p) => qualified_name(*p) + "."@ + s.name@,
        None => s.name@,
    }
}

impl Scope {
    /// An open top-level scope without indentation.
    pub fn new(name: String) -> (r: Self)
        ensures
            r.name == name,
            r.parent is None,
            r.indent is None,
            !r.closed,
    {
        Scope { name, parent: None, indent: None, closed: false }
    }

    /// An open scope inside `parent`, without indentation.
    pub fn child(name: String, parent: Scope) -> (r: Self)
        ensures
            r.name == name,
            r.parent == Some(Box::new(parent)),
            r.indent is None,
            !r.closed,
    {
        Scope { name, parent: Some(Box::new(parent)), indent: None, closed: false }
    }

    /// An open top-level scope with the given indentation.
    pub fn with_indent(name: String, indent: Indent) -> (r: Self)
        ensures
            r.name == name,
            r.parent is None,
            r.indent == Some(indent),
            !r.closed,
    {
        Scope { name, parent: None, indent: Some(indent), closed: false }
    }

    /// The scope's name.
    pub fn get_name(&self) -> (r: &str)
        ensures
            r@ == self.name@,
    {
        self.name.as_str()
    }

    /// The names from the outermost scope down to this one, joined by `.`.
    pub fn get_qualified_name(&self) -> (r: String)
        ensures
            r@ == qualified_name(*self),
        decreases self,
    {
        match &self.parent {
            Some(p) => {
                let mut r = p.get_qualified_name();
                push_text(&mut r, ".");
                push_text(&mut r, self.name.as_str());
                r
            },
            None => self.name.clone(),
        }
    }

    /// The enclosing scope, if any.
    pub fn get_parent(&self) -> (r: Option<&Scope>)
        ensures
            match self.parent {
                Some(p) => r == Some(&*p),
                None => r is None,
            },
    {
        match &self.parent {
            Some(p) => Some(&**p),
            None => None,
        }
    }

    /// Whether the scope is closed.
    pub fn is_closed(&self) -> (r: bool)
        ensures
            r == self.closed,
    {
        self.closed
    }

    /// The scope's indentation, if any.
    pub fn get_indent(&self) -> (r: Option<&Indent>)
        ensures
            match self.indent {
                Some(i) => r == Some(&i),
                None => r is None,
            },
    {
        match &self.indent {
            Some(i) => Some(i),
            None => None,
        }
    }

    /// Goes one level deeper in the scope's indentation, if it has one.
    pub fn indent(&mut self)
        requires
            old(self).indent matches Some(i) ==> i.level() < usize::MAX,
        ensures
            final(self).name == old(self).name,
            final(self).parent == old(self).parent,
            final(self).closed == old(self).closed,
            final(self).indent is Some <==> old(self).indent is Some,
            old(self).indent matches Some(i) ==> final(self).indent matches Some(j)
                && j.level() == i.level() + 1 && j.unit() == i.unit(),
    {
        match self.indent.take() {
            Some(mut i) => {
                i.indent();
                self.indent = Some(i);
            },
            None => {},
        }
    }
}

impl DebugCloseable for Scope {
    /// Closes the scope once; closing undoes one level of its indentation.
    fn close(&mut self)
        ensures
            final(self).closed,
            final(self).name == old(self).name,
            final(self).parent == old(self).parent,
            final(self).indent is Some <==> old(self).indent is Some,
            old(self).closed ==> final(self).indent == old(self).indent,
            !old(self).closed ==> (old(self).indent matches Some(i) ==> final(self).indent matches Some(j)
                && j.level() == (if i.level() > 0 { i.level() - 1 } else { 0 }) && j.unit() == i.unit()),
    {
        if !self.closed {
            self.closed = true;
            match self.indent.take() {
                Some(mut i) => {
                    i.outdent();
                    self.indent = Some(i);
                },
                None => {},
            }
        }
    }
}

} // verus!
