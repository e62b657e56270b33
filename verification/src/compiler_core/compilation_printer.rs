//! The informational line printed when the compilation of a method completes.
use vstd::prelude::*;
use crate::compiler_core::compilation_watch_dog::CompilationIdentifier;
use crate::text::{owned, pad_right, push_padded, push_signed_decimal, push_text, signed_decimal};

verus! {

/// What a compilation compiles: a Java method or a foreign call stub.
#[derive(Debug)]
pub enum CompilationSource {
    /// A Java method.
    JavaMethod {
        /// The declaring class.
        declaring_class: String,
        /// The method name.
        method_name: String,
        /// The method descriptor (signature).
        method_descriptor: String,
    },
    /// A foreign call (stub).
    ForeignCallSignature {
        /// The signature name.
        name: String,
        /// The signature descriptor.
        descriptor: String,
    },
}

impl Clone for CompilationSource {
    fn clone(&self) -> (r: Self)
        ensures
            r == *self,
    {
        match self {
            CompilationSource::JavaMethod { declaring_class, method_name, method_descriptor } => {
                CompilationSource::JavaMethod {
                    declaring_class: declaring_class.clone(),
                    method_name: method_name.clone(),
                    method_descriptor: method_descriptor.clone(),
                }
            },
            CompilationSource::ForeignCallSignature { name, descriptor } => {
                CompilationSource::ForeignCallSignature { name: name.clone(), descriptor: descriptor.clone() }
            },
        }
    }
}

impl CompilationSource {
    /// The source of a Java method compilation.
    pub fn java_method(declaring_class: &str, method_name: &str, method_descriptor: &str) -> (r: Self)
        ensures
            r matches CompilationSource::JavaMethod { declaring_class: c, method_name: m, method_descriptor: d }
                && c@ == declaring_class@ && m@ == method_name@ && d@ == method_descriptor@,
    {
        CompilationSource::JavaMethod {
            declaring_class: owned(declaring_class),
            method_name: owned(method_name),
            method_descriptor: owned(method_descriptor),
        }
    }

    /// The source of a foreign call stub compilation.
    pub fn foreign_call(name: &str, descriptor: &str) -> (r: Self)
        ensures
            r matches CompilationSource::ForeignCallSignature { name: n, descriptor: d }
                && n@ == name@ && d@ == descriptor@,
    {
        CompilationSource::ForeignCallSignature { name: owned(name), descriptor: owned(descriptor) }
    }
}

/// Prints an informational line (to the console or a CSV file) when the
/// compilation of a method completes.
#[derive(Debug)]
pub struct CompilationPrinter {
    /// The compilation.
    pub id: CompilationIdentifier,
    /// What is compiled.
    pub source: CompilationSource,
    /// The entry BCI of the compiled method.
    pub entry_bci: i32,
    /// Whether to print to the console.
    pub print_tty: bool,
    /// Wall time at the start of the compilation, in nanoseconds.
    pub begin_wall_time: u64,
    /// Thread time at the start of the compilation, where supported.
    pub begin_thread_time: Option<u64>,
    /// Bytes allocated at the start of the compilation, where supported.
    pub begin_allocated_bytes: Option<u64>,
    /// Whether this is the disabled printer, which stands for no compilation.
    pub sentinel: bool,
}

/// The suffix that marks an on-stack-replacement compilation in a method
/// description: empty for an invocation entry, else `(OSR@<bci>) `.
pub open spec fn osr_suffix(entry_bci: i32) -> Seq<char> {
    if entry_bci == -1 {
        Seq::empty()
    } else {
        "(OSR@"@ + signed_decimal(entry_bci as int) + ") "@
    }
}

/// Four columns padded to 30, 70, 45 and 50 characters, each followed by one
/// space, then the last column as it is.
pub open spec fn description_columns(a: Seq<char>, b: Seq<char>, c: Seq<char>, d: Seq<char>, e: Seq<char>) -> Seq<char> {
    pad_right(a, 30) + " "@ + pad_right(b, 70) + " "@ + pad_right(c, 45) + " "@ + pad_right(d, 50) + " "@ + e
}

/// The method description of a printer with the given identifier, source and entry BCI.
pub open spec fn method_description(id: Seq<char>, source: CompilationSource, entry_bci: i32) -> Seq<char> {
    match source {
        CompilationSource::JavaMethod { declaring_class, method_name, method_descriptor } =>
            description_columns(id, declaring_class@, method_name@, method_descriptor@, osr_suffix(entry_bci)),
        CompilationSource::ForeignCallSignature { name, descriptor } =>
            description_columns(id, "<stub>"@, name@, descriptor@, Seq::empty()),
    }
}

impl CompilationPrinter {
    /// The BCI of an invocation entry (not an on-stack replacement).
    pub const INVOCATION_ENTRY_BCI: i32 = -1;

    /// A printer that prints nothing.
    pub fn disabled() -> (r: Self)
        ensures
            r.id.id@ == Seq::<char>::empty(),
            r.source matches CompilationSource::ForeignCallSignature { name, descriptor }
                && name@ == Seq::<char>::empty() && descriptor@ == Seq::<char>::empty(),
            r.entry_bci == -1,
            !r.print_tty,
            r.begin_wall_time == 0,
            r.begin_thread_time is None,
            r.begin_allocated_bytes is None,
            r.sentinel,
    {
        proof {
            reveal_strlit("");
        }
        CompilationPrinter {
            id: CompilationIdentifier::new(""),
            source: CompilationSource::foreign_call("", ""),
            entry_bci: -1,
            print_tty: false,
            begin_wall_time: 0,
            begin_thread_time: None,
            begin_allocated_bytes: None,
            sentinel: true,
        }
    }

    /// Starts tracking a compilation; `None` where neither console nor CSV
    /// printing is on.
    pub fn begin(
        id: CompilationIdentifier,
        source: CompilationSource,
        entry_bci: i32,
        print_tty: bool,
        csv_enabled: bool,
    ) -> (r: Option<Self>)
        ensures
            (print_tty || csv_enabled) <==> r is Some,
            r matches Some(p) ==> {
                &&& p.id == id
                &&& p.source == source
                &&& p.entry_bci == entry_bci
                &&& p.print_tty == print_tty
                &&& p.begin_wall_time == 0
                &&& p.begin_thread_time is None
                &&& p.begin_allocated_bytes is None
                &&& !p.sentinel
            },
    {
        if !print_tty && !csv_enabled {
            return None;
        }
        Some(CompilationPrinter {
            id,
            source,
            entry_bci,
            print_tty,
            begin_wall_time: 0,
            begin_thread_time: None,
            begin_allocated_bytes: None,
            sentinel: false,
        })
    }

    /// Finishes tracking a compilation. The statistics are printed by the
    /// caller that owns the console; nothing here changes.
    pub fn finish(
        &self,
        target_code_size: i32,
        bytecode_size: i32,
        start_address: u64,
        code_size: i32,
        inlined_bytecodes: i32,
    ) {
        if !self.print_tty {
            return;
        }
    }

    /// Closes the shared CSV stream.
    pub fn close_csv() {
    }

    /// Whether the shared CSV stream is open; it never is here.
    pub fn printing_to_csv() -> (r: bool)
        ensures
            !r,
    {
        false
    }

    /// Whether this printer is the disabled one; a printer made by `begin`
    /// never is.
    pub fn is_disabled(&self) -> (r: bool)
        ensures
            r == self.sentinel,
    {
        self.sentinel
    }

    /// The description of the compiled method: the identifier, the class (or
    /// `<stub>`), the method name and its descriptor in padded columns,
    /// followed by the on-stack-replacement suffix.
    pub fn get_method_description(&self) -> (r: String)
        ensures
            r@ == method_description(self.id.id@, self.source, self.entry_bci),
    {
        let mut r = String::new();
        push_padded(&mut r, self.id.id.as_str(), 30);
        push_text(&mut r, " ");
        match &self.source {
            CompilationSource::JavaMethod { declaring_class, method_name, method_descriptor } => {
                push_padded(&mut r, declaring_class.as_str(), 70);
                push_text(&mut r, " ");
                push_padded(&mut r, method_name.as_str(), 45);
                push_text(&mut r, " ");
                push_padded(&mut r, method_descriptor.as_str(), 50);
                push_text(&mut r, " ");
                if self.entry_bci != Self::INVOCATION_ENTRY_BCI {
                    push_text(&mut r, "(OSR@");
                    push_signed_decimal(&mut r, self.entry_bci as i64);
                    push_text(&mut r, ") ");
                }
            },
            CompilationSource::ForeignCallSignature { name, descriptor } => {
                push_padded(&mut r, "<stub>", 70);
                push_text(&mut r, " ");
                push_padded(&mut r, name.as_str(), 45);
                push_text(&mut r, " ");
                push_padded(&mut r, descriptor.as_str(), 50);
                push_text(&mut r, " ");
            },
        }
        assert(r@ =~= method_description(self.id.id@, self.source, self.entry_bci));
        r
    }
}

/// The state of the shared CSV stream.
pub struct CsvState {
    /// Whether the CSV stream is open.
    pub is_open: bool,
    /// The file name template of the CSV stream.
    pub filename: Option<String>,
}

impl Default for CsvState {
    fn default() -> (r: Self)
        ensures
            !r.is_open,
            r.filename is None,
    {
        CsvState { is_open: false, filename: None }
    }
}

impl CsvState {
    /// A closed CSV state without file name.
    pub fn new() -> (r: Self)
        ensures
            !r.is_open,
            r.filename is None,
    {
        CsvState { is_open: false, filename: None }
    }
}

} // verus!
