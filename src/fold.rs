//! Folding a trace with inferno's perf folder.
//!
//! The event that a run counts is always resolved here and handed to the
//! folder explicitly: a filter given in the options wins, and otherwise the
//! first event named by a header of the trace (see [`crate::trace`]) is used.
use vstd::prelude::*;
use vstd::utf8::encode_utf8;
use inferno::collapse::perf::{Folder, Options};
use inferno::collapse::Collapse;
use crate::options::FoldOptions;
use crate::trace::{
    first_event, first_event_of, frames_cut_cleanly, frames_cut_cleanly_exec, weight_fits,
    weight_total,
};

verus! {

/// An I/O error of the folder, carried through unchanged.
#[verifier::external_type_specification]
#[verifier::external_body]
pub struct ExIoError(std::io::Error);

/// The folded lines that inferno's perf folder writes for `trace`, counting
/// only records of the event `event`, with the given annotation, label and
/// marker settings.
pub uninterp spec fn perf_folded(
    trace: Seq<char>,
    annotate_jit: bool,
    annotate_kernel: bool,
    include_addrs: bool,
    include_pid: bool,
    include_tid: bool,
    event: Seq<u8>,
    skip_after: Seq<Seq<char>>,
) -> Seq<u8>;

/// The largest worker count that a fold accepts.
pub const MAX_WORKERS: usize = 65536;

/// The folder can take `trace` with `options` without failing: a worker count
/// from one to [`MAX_WORKERS`], no frame whose symbol would be cut inside a
/// character, and counts that cannot outgrow `usize`.
pub open spec fn foldable(trace: Seq<char>, options: FoldOptions) -> bool {
    &&& 1 <= options.nthreads <= MAX_WORKERS
    &&& frames_cut_cleanly(encode_utf8(trace))
    &&& weight_total(encode_utf8(trace)) <= usize::MAX
}

/// Relies on inferno's `perf::Folder::collapse` (with `Options::default` and
/// `Folder::from`): given an event filter, it reads the whole trace from the
/// slice and writes the folded lines, sorted, to the vector. Reading a slice
/// and writing a vector cannot fail, and with a filter given nothing else
/// returns an error. The lines depend on the trace and the settings alone: the
/// worker count only decides how the blocks are shared out, and the per-stack
/// counts are summed before the sorted output is written.
///
/// The requirement leaves out what makes it panic: its symbol clean-up slices
/// a symbol seventeen bytes before its end, which fails off a character
/// boundary; the counts are sums of periods in `usize`; and a worker count
/// near `usize::MAX` overflows when channels and thread handles are sized.
/// Beyond that it creates one thread per worker, and `Options::default` asks
/// the machine for its parallelism, unwrapping the answer: only the machine
/// can refuse either.
#[verifier::external_body]
fn fold_with_folder(trace: &str, options: &FoldOptions, event: &[u8]) -> (r: Result<
    Vec<u8>,
    std::io::Error,
>)
    requires
        foldable(trace@, *options),
    ensures
        r is Ok,
        r matches Ok(out) ==> out@ == perf_folded(
            trace@,
            options.annotate_jit,
            options.annotate_kernel,
            options.include_addrs,
            options.include_pid,
            options.include_tid,
            event@,
            options.skip_after.deep_view(),
        ),
{
    let mut o = Options::default();
    o.annotate_jit = options.annotate_jit;
    o.annotate_kernel = options.annotate_kernel;
    o.include_addrs = options.include_addrs;
    o.include_pid = options.include_pid;
    o.include_tid = options.include_tid;
    o.nthreads = options.nthreads;
    o.skip_after = options.skip_after.clone();
    o.event_filter = Some(String::from_utf8_lossy(event).into_owned());
    let mut out = Vec::new();
    Folder::from(o).collapse(trace.as_bytes(), &mut out)?;
    Ok(out)
}

/// Why a trace could not be folded.
pub enum FoldError {
    /// The options ask for no worker at all.
    NoWorkers,
    /// The options ask for more than [`MAX_WORKERS`] workers.
    TooManyWorkers,
    /// A frame's symbol would be cut inside a character by the folder's symbol
    /// clean-up (see [`frames_cut_cleanly`]).
    SplitCharacter,
    /// The periods of the headers could add up to more than `usize` holds.
    CountOverflow,
}

/// The event that a run counts: the filter of the options, else the first
/// event named in the trace, else none (an empty name, which no header holds).
pub open spec fn chosen_event(trace: Seq<char>, options: FoldOptions) -> Seq<u8> {
    match options.event_filter {
        Some(f) => encode_utf8(f@),
        None => match first_event_of(encode_utf8(trace)) {
            Some(name) => name,
            None => Seq::empty(),
        },
    }
}

/// What folding `trace` with `options` writes: nothing for an empty trace,
/// otherwise the folder's lines for the chosen event.
pub open spec fn folded(trace: Seq<char>, options: FoldOptions) -> Seq<u8> {
    if trace.len() == 0 {
        Seq::empty()
    } else {
        perf_folded(
            trace,
            options.annotate_jit,
            options.annotate_kernel,
            options.include_addrs,
            options.include_pid,
            options.include_tid,
            chosen_event(trace, options),
            options.skip_after.deep_view(),
        )
    }
}

/// Folds a `perf script` trace into lines `<stack> <count>`, where each count
/// is the sum of the periods of the stack's records (one for a header with no
/// period).
pub fn collapse(trace: &str, options: &FoldOptions) -> (r: Result<Vec<u8>, FoldError>)
    ensures
        options.nthreads == 0 <==> r matches Err(FoldError::NoWorkers),
        options.nthreads > MAX_WORKERS <==> r matches Err(FoldError::TooManyWorkers),
        r matches Err(FoldError::SplitCharacter) <==> 1 <= options.nthreads <= MAX_WORKERS
            && !frames_cut_cleanly(encode_utf8(trace@)),
        r matches Err(FoldError::CountOverflow) <==> 1 <= options.nthreads <= MAX_WORKERS
            && frames_cut_cleanly(encode_utf8(trace@)) && weight_total(encode_utf8(trace@))
            > usize::MAX,
        r is Ok <==> foldable(trace@, *options),
        r matches Ok(out) ==> out@ == folded(trace@, *options),
        1 <= options.nthreads <= MAX_WORKERS && trace@.len() == 0 ==> (r matches Ok(out)
            && out@.len() == 0),
{
    if options.nthreads == 0 {
        return Err(FoldError::NoWorkers);
    }
    if options.nthreads > MAX_WORKERS {
        return Err(FoldError::TooManyWorkers);
    }
    let bytes = trace.as_bytes();
    if !frames_cut_cleanly_exec(bytes) {
        return Err(FoldError::SplitCharacter);
    }
    if !weight_fits(bytes) {
        return Err(FoldError::CountOverflow);
    }
    if trace.is_empty() {
        return Ok(Vec::new());
    }
    let event: Vec<u8> = match &options.event_filter {
        Some(f) => vstd::slice::slice_to_vec(f.as_str().as_bytes()),
        None => match first_event(bytes) {
            Some(name) => name,
            None => Vec::new(),
        },
    };
    Ok(fold_with_folder(trace, options, event.as_slice()).unwrap())
}

/// Folding is repeatable: two successful folds of one trace with the same
/// options write the same lines.
pub proof fn lemma_fold_repeatable(
    trace: Seq<char>,
    options: FoldOptions,
    first: Seq<u8>,
    second: Seq<u8>,
)
    requires
        first == folded(trace, options),
        second == folded(trace, options),
    ensures
        first == second,
{
}

/// The worker count does not change what a fold writes.
pub proof fn lemma_workers_do_not_matter(trace: Seq<char>, a: FoldOptions, b: FoldOptions)
    requires
        a.annotate_jit == b.annotate_jit,
        a.annotate_kernel == b.annotate_kernel,
        a.event_filter == b.event_filter,
        a.include_addrs == b.include_addrs,
        a.include_pid == b.include_pid,
        a.include_tid == b.include_tid,
        a.skip_after@ == b.skip_after@,
        a.nthreads >= 1,
        b.nthreads >= 1,
    ensures
        folded(trace, a) == folded(trace, b),
{
    assert(a.skip_after.deep_view() =~= b.skip_after.deep_view());
}

} // verus!
