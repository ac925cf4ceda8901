use vstd::prelude::*;

verus! {

/// A path to a trace file, carried through unchanged.
#[verifier::external_type_specification]
#[verifier::external_body]
pub struct ExPathBuf(std::path::PathBuf);

/// How a trace is folded.
pub struct FoldOptions {
    /// Annotate JIT frames with `_[j]`.
    pub annotate_jit: bool,
    /// Annotate kernel frames with `_[k]`.
    pub annotate_kernel: bool,
    /// The only event counted; `None` resolves it to the first event of the trace.
    pub event_filter: Option<String>,
    /// Render a frame without a symbol by its address.
    pub include_addrs: bool,
    /// Suffix the process name with `-<pid>`.
    pub include_pid: bool,
    /// Suffix the process name with `-<pid>/<tid>`.
    pub include_tid: bool,
    /// Number of parallel workers; must be at least one.
    pub nthreads: usize,
    /// Marker function names: the frames above a matched one are dropped.
    pub skip_after: Vec<String>,
}

/// The flags of the command line, as parsed.
pub struct Opt {
    /// Include raw addresses where symbols can't be found.
    pub addrs: bool,
    /// All annotations (kernel and JIT).
    pub all: bool,
    /// Annotate JIT functions.
    pub jit: bool,
    /// Annotate kernel functions.
    pub kernel: bool,
    /// Include the PID with process names.
    pub pid: bool,
    /// Include the TID and PID with process names.
    pub tid: bool,
    /// Event filter; unset means the first encountered event.
    pub event_filter: Option<String>,
    /// Number of threads to use.
    pub nthreads: usize,
    /// The trace file, or standard input when unset.
    pub infile: Option<std::path::PathBuf>,
    /// Marker function name for trimming stacks.
    pub skip_after: Option<String>,
}

/// The marker list that an optional marker name stands for.
pub open spec fn markers_of(skip_after: Option<String>) -> Seq<String> {
    match skip_after {
        Some(name) => seq![name],
        None => Seq::empty(),
    }
}

impl Opt {
    /// Splits the flags into the input path and the folding options.
    pub fn into_parts(self) -> (r: (Option<std::path::PathBuf>, FoldOptions))
        ensures
            r.0 == self.infile,
            r.1.include_pid == self.pid,
            r.1.include_tid == self.tid,
            r.1.include_addrs == self.addrs,
            r.1.annotate_jit == (self.jit || self.all),
            r.1.annotate_kernel == (self.kernel || self.all),
            r.1.event_filter == self.event_filter,
            r.1.nthreads == self.nthreads,
            r.1.skip_after@ == markers_of(self.skip_after),
    {
        let Opt { addrs, all, jit, kernel, pid, tid, event_filter, nthreads, infile, skip_after } =
            self;
        let mut markers: Vec<String> = Vec::new();
        match skip_after {
            Some(name) => markers.push(name),
            None => {},
        }
        let options = FoldOptions {
            annotate_jit: jit || all,
            annotate_kernel: kernel || all,
            event_filter,
            include_addrs: addrs,
            include_pid: pid,
            include_tid: tid,
            nthreads,
            skip_after: markers,
        };
        (infile, options)
    }
}

} // verus!
