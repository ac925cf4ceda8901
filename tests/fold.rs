use collapse_perf::fold::{collapse, FoldError, MAX_WORKERS};
use collapse_perf::header::event_of_header;
use collapse_perf::options::{FoldOptions, Opt};
use collapse_perf::trace::{first_event, frames_cut_cleanly_exec, weight_fits};

fn plain_options(nthreads: usize) -> FoldOptions {
    FoldOptions {
        annotate_jit: false,
        annotate_kernel: false,
        event_filter: None,
        include_addrs: false,
        include_pid: false,
        include_tid: false,
        nthreads,
        skip_after: Vec::new(),
    }
}

fn fold_text(trace: &str, options: &FoldOptions) -> String {
    match collapse(trace, options) {
        Ok(out) => String::from_utf8(out).unwrap(),
        Err(_) => panic!("folding failed"),
    }
}

fn pairs(folded: &str) -> Vec<(String, u64)> {
    let mut v: Vec<(String, u64)> = folded
        .lines()
        .map(|l| {
            let (k, c) = l.rsplit_once(' ').unwrap();
            (k.to_string(), c.parse().unwrap())
        })
        .collect();
    v.sort();
    v
}

const TWO_MAIN: &str = "app 123 1.000001: cycles:\n\tffff main (/bin/app)\n\napp 123 1.000002: cycles:\n\tffff main (/bin/app)\n\n";

const MIXED: &str = "\
app 10 1.000001: cycles:
\t1000 hot (/bin/app)
\t2000 main (/bin/app)

app 10 1.000002: instructions:
\t3000 cold (/bin/app)
\t2000 main (/bin/app)

app 10 1.000003: cycles:
\t1000 hot (/bin/app)
\t2000 main (/bin/app)

app 10 1.000004: instructions:
\t3000 cold (/bin/app)
\t2000 main (/bin/app)

app 11 1.000005: cycles:
\t4000 other (/bin/app)
\t2000 main (/bin/app)
";

#[test]
fn two_identical_records_fold_into_one_line() {
    assert_eq!(fold_text(TWO_MAIN, &plain_options(1)), "app;main 2\n");
}

#[test]
fn marker_trims_the_callers() {
    let trace = "app 1 1.0: cycles:\n\t3 leaf (/bin/app)\n\t2 foo (/bin/app)\n\t1 root (/bin/app)\n\n";
    let mut options = plain_options(1);
    options.skip_after = vec!["foo".to_string()];
    assert_eq!(fold_text(trace, &options), "foo;leaf 1\n");
}

#[test]
fn only_the_first_event_is_counted() {
    let out = fold_text(MIXED, &plain_options(1));
    assert_eq!(out, "app;main;hot 2\napp;main;other 1\n");
    assert!(!out.contains("cold"));
}

#[test]
fn explicit_filter_selects_the_event() {
    let mut options = plain_options(1);
    options.event_filter = Some("instructions".to_string());
    assert_eq!(fold_text(MIXED, &options), "app;main;cold 2\n");
}

#[test]
fn unknown_symbol_becomes_the_sentinel() {
    let trace = "app 1 1.0: cycles:\n\tdead [unknown] ([unknown])\n\t2 main (/bin/app)\n\n";
    assert_eq!(fold_text(trace, &plain_options(1)), "app;main;[unknown] 1\n");
}

#[test]
fn unknown_symbol_with_addresses() {
    let trace = "app 1 1.0: cycles:\n\tdead [unknown] ([unknown])\n\t2 main (/bin/app)\n\n";
    let mut options = plain_options(1);
    options.include_addrs = true;
    assert_eq!(fold_text(trace, &options), "app;main;[unknown <dead>] 1\n");
}

#[test]
fn kernel_frames_are_annotated() {
    let trace = "app 1 1.0: cycles:\n\tffff do_syscall ([kernel.kallsyms])\n\t2 main (/bin/app)\n\n";
    let mut options = plain_options(1);
    assert_eq!(fold_text(trace, &options), "app;main;do_syscall 1\n");
    options.annotate_kernel = true;
    assert_eq!(fold_text(trace, &options), "app;main;do_syscall_[k] 1\n");
}

#[test]
fn jit_frames_are_annotated() {
    let trace = "app 1 1.0: cycles:\n\t7f0 jitted_fn (/tmp/perf-1.map)\n\t2 main (/bin/app)\n\n";
    let mut options = plain_options(1);
    options.annotate_jit = true;
    assert_eq!(fold_text(trace, &options), "app;main;jitted_fn_[j] 1\n");
}

#[test]
fn pid_and_tid_label_the_process() {
    let trace = "app 24636/25607 [000] 1.0: cycles:\n\t2 main (/bin/app)\n\n";
    let mut options = plain_options(1);
    options.include_pid = true;
    assert_eq!(fold_text(trace, &options), "app-24636;main 1\n");
    options.include_tid = true;
    assert_eq!(fold_text(trace, &options), "app-24636/25607;main 1\n");
}

#[test]
fn empty_trace_folds_to_nothing() {
    let out = collapse("", &plain_options(1));
    assert!(matches!(out, Ok(ref v) if v.is_empty()));
    let out = collapse("", &plain_options(4));
    assert!(matches!(out, Ok(ref v) if v.is_empty()));
}

#[test]
fn zero_workers_is_rejected() {
    assert!(matches!(collapse(TWO_MAIN, &plain_options(0)), Err(FoldError::NoWorkers)));
    assert!(matches!(collapse("", &plain_options(0)), Err(FoldError::NoWorkers)));
}

#[test]
fn counts_sum_to_the_counted_records() {
    let total: u64 = pairs(&fold_text(MIXED, &plain_options(1))).iter().map(|p| p.1).sum();
    assert_eq!(total, 3);
}

#[test]
fn folding_twice_gives_the_same_lines() {
    let options = plain_options(2);
    assert_eq!(pairs(&fold_text(MIXED, &options)), pairs(&fold_text(MIXED, &options)));
}

#[test]
fn worker_count_does_not_change_the_lines() {
    let mut big = String::new();
    for i in 0..500 {
        big.push_str(&format!("app 10 1.{}: cycles:\n\t1 f{} (/bin/app)\n\t2 main (/bin/app)\n\n", i, i % 7));
    }
    let one = pairs(&fold_text(&big, &plain_options(1)));
    let four = pairs(&fold_text(&big, &plain_options(4)));
    assert_eq!(one, four);
    assert_eq!(one.len(), 7);
}

#[test]
fn absent_marker_changes_nothing() {
    let mut options = plain_options(1);
    let plain = fold_text(MIXED, &options);
    options.skip_after = vec!["not_there".to_string()];
    assert_eq!(fold_text(MIXED, &options), plain);
}

#[test]
fn leading_blank_line_and_comments_are_tolerated() {
    let trace = "# captured on host\n\n\napp 1 1.0: cycles:\n\t2 main (/bin/app)\n\n";
    assert_eq!(fold_text(trace, &plain_options(1)), "app;main 1\n");
}

#[test]
fn header_event_names() {
    assert_eq!(event_of_header(b"java 25607 4794564.109216: cycles:"), Some(Some(b"cycles".to_vec())));
    assert_eq!(
        event_of_header(b"vote   913    72.176760:     257597 cycles:uppp:"),
        Some(Some(b"cycles".to_vec()))
    );
    assert_eq!(
        event_of_header(b"V8 WorkerThread 24636/25607 [000] 94564.109216: cycles:"),
        Some(Some(b"cycles".to_vec()))
    );
    assert_eq!(event_of_header(b"app 12 rest of line"), Some(None));
    assert_eq!(event_of_header(b"no digits here"), None);
    assert_eq!(event_of_header(b"12 starts with digits"), None);
}

#[test]
fn first_event_skips_metadata_and_frames() {
    let trace = b"# cycles:\n\nmalformed header\napp 1 1.0: instructions:\n\t1 f (/bin/a)\n";
    assert_eq!(first_event(trace), Some(b"instructions".to_vec()));
    assert_eq!(first_event(b"app 1 nothing named\n\t1 x 2 3: cycles:\n"), None);
    assert_eq!(first_event(b""), None);
}

#[test]
fn flags_become_options() {
    let opt = Opt {
        addrs: true,
        all: true,
        jit: false,
        kernel: false,
        pid: true,
        tid: false,
        event_filter: Some("cycles".to_string()),
        nthreads: 3,
        infile: None,
        skip_after: Some("foo".to_string()),
    };
    let (infile, options) = opt.into_parts();
    assert!(infile.is_none());
    assert!(options.annotate_jit && options.annotate_kernel && options.include_addrs);
    assert!(options.include_pid && !options.include_tid);
    assert_eq!(options.event_filter, Some("cycles".to_string()));
    assert_eq!(options.nthreads, 3);
    assert_eq!(options.skip_after, vec!["foo".to_string()]);
}

#[test]
fn unicode_blank_line_ends_a_block() {
    let trace = "app 1 nameless\n\u{3000}\napp 2 1.0: cycles:\n\t1 f (/bin/a)\n";
    assert_eq!(first_event(trace.as_bytes()), Some(b"cycles".to_vec()));
}

#[test]
fn trailing_unicode_space_is_not_part_of_the_event() {
    let trace = "app 1 1.0: cycles\u{a0}\n\t1 f (/bin/a)\n";
    assert_eq!(first_event(trace.as_bytes()), Some(b"cycles".to_vec()));
}

#[test]
fn symbol_cut_inside_a_character_is_refused() {
    let trace = "app 1 1.0: cycles:\n\t1 f\u{e9}0123456789abcdef (/bin/a)\n\n";
    assert!(!frames_cut_cleanly_exec(trace.as_bytes()));
    assert!(matches!(collapse(trace, &plain_options(1)), Err(FoldError::SplitCharacter)));
    assert!(matches!(collapse(trace, &plain_options(0)), Err(FoldError::NoWorkers)));
    let with_offset = "app 1 1.0: cycles:\n\t1 f\u{e9}0123456789abcdef+0x1f (/bin/a)\n\n";
    assert!(!frames_cut_cleanly_exec(with_offset.as_bytes()));
}

#[test]
fn non_ascii_outside_symbols_folds() {
    let trace = "\u{e9}0123456789abcdef 1 1.0: cycles:\n\t1 main (/bin/a)\n\n";
    assert!(frames_cut_cleanly_exec(trace.as_bytes()));
    assert_eq!(fold_text(trace, &plain_options(1)), "\u{e9}0123456789abcdef;main 1\n");
}

#[test]
fn non_ascii_symbols_fold() {
    let trace = "app 1 1.0: cycles:\n\t1 gr\u{fc}\u{df}e (/bin/a)\n\t2 main (/bin/a)\n\n";
    assert!(frames_cut_cleanly_exec(trace.as_bytes()));
    assert_eq!(fold_text(trace, &plain_options(1)), "app;main;gr\u{fc}\u{df}e 1\n");
}

#[test]
fn periods_are_summed() {
    let trace = "app 1 1.0: 5 cycles:\n\t1 main (/a)\n\napp 1 1.1: 7 cycles:\n\t1 main (/a)\n\n";
    assert!(weight_fits(trace.as_bytes()));
    assert_eq!(fold_text(trace, &plain_options(1)), "app;main 12\n");
    assert_eq!(fold_text(trace, &plain_options(3)), "app;main 12\n");
}

#[test]
fn overflowing_periods_are_refused() {
    let trace = "app 1 1.0: 18446744073709551615 cycles:\n\t1 main (/a)\n\napp 1 1.1: 1 cycles:\n\t1 main (/a)\n\n";
    assert!(!weight_fits(trace.as_bytes()));
    assert!(matches!(collapse(trace, &plain_options(1)), Err(FoldError::CountOverflow)));
}

#[test]
fn too_many_workers_is_rejected() {
    assert!(matches!(collapse(TWO_MAIN, &plain_options(MAX_WORKERS + 1)), Err(FoldError::TooManyWorkers)));
    assert!(matches!(collapse(TWO_MAIN, &plain_options(usize::MAX)), Err(FoldError::TooManyWorkers)));
    assert!(matches!(collapse("", &plain_options(usize::MAX)), Err(FoldError::TooManyWorkers)));
}
