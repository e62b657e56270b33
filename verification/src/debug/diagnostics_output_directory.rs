//! The directory that diagnostic files are written to, and the paths of files in it.
use vstd::prelude::*;
use crate::text::{chars_of, owned, push_char, push_text};

verus! {

/// The path of `name` resolved against `base`: an absolute `name` (one
/// starting with `/`) stands alone; otherwise it follows `base`, with a `/`
/// between them where `base` is not empty and does not end with one.
pub open spec fn path_join(base: Seq<char>, name: Seq<char>) -> Seq<char> {
    if name.len() > 0 && name[0] == '/' {
        name
    } else if base.len() == 0 || base.last() == '/' {
        base + name
    } else {
        base + seq!['/'] + name
    }
}

/// The file name of a dump: `<id>_<name>.<extension>`.
pub open spec fn dump_file_name(id: Seq<char>, name: Seq<char>, extension: Seq<char>) -> Seq<char> {
    id + "_"@ + name + "."@ + extension
}

/// A directory for diagnostic output, given by its path.
#[derive(Debug)]
pub struct DiagnosticsOutputDirectory {
    output_directory: String,
}

impl Clone for DiagnosticsOutputDirectory {
    fn clone(&self) -> (r: Self)
        ensures
            r.path() == self.path(),
    {
        DiagnosticsOutputDirectory { output_directory: self.output_directory.clone() }
    }
}

impl DiagnosticsOutputDirectory {
    /// The directory's path.
    pub closed spec fn path(&self) -> Seq<char> {
        self.output_directory@
    }

    /// The directory at the given path.
    pub fn new(path: String) -> (r: Self)
        ensures
            r.path() == path@,
    {
        DiagnosticsOutputDirectory { output_directory: path }
    }

    /// The directory's path.
    pub fn get_output_directory(&self) -> (r: &str)
        ensures
            r@ == self.path(),
    {
        self.output_directory.as_str()
    }

    /// The path of `name` in the directory.
    pub fn resolve(&self, name: &str) -> (r: String)
        ensures
            r@ == path_join(self.path(), name@),
    {
        let n = chars_of(name);
        if n.len() > 0 && n[0] == '/' {
            return owned(name);
        }
        let b = chars_of(self.output_directory.as_str());
        let mut r = self.output_directory.clone();
        if b.len() > 0 && b[b.len() - 1] != '/' {
            push_char(&mut r, '/');
        }
        push_text(&mut r, name);
        r
    }

    /// The path of the dump file `<id>_<name>.<extension>` in the directory.
    pub fn create_dump_file(&self, id: &str, name: &str, extension: &str) -> (r: String)
        ensures
            r@ == path_join(self.path(), dump_file_name(id@, name@, extension@)),
    {
        let mut file = owned(id);
        push_text(&mut file, "_");
        push_text(&mut file, name);
        push_text(&mut file, ".");
        push_text(&mut file, extension);
        self.resolve(file.as_str())
    }

    /// The directory's path.
    pub fn to_string(&self) -> (r: String)
        ensures
            r@ == self.path(),
    {
        self.output_directory.clone()
    }
}

} // verus!
