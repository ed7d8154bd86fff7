use cli::cmd::cat::CatCmd;
use cli::cmd::cd::CdCmd;
use cli::cmd::echo::EchoCmd;
use cli::cmd::grep::GrepArgs;
use cli::cmd::grep::GrepCmd;
use cli::cmd::ls::Listing;
use cli::cmd::ls::LsCmd;
use cli::cmd::wc::WcCmd;
use cli::env::Env;
use cli::env::EnvAssign;

fn grep_args(case_insensitive: bool, whole_word: bool, count: usize, pattern: &str) -> GrepArgs {
    GrepArgs {
        case_insensitive,
        whole_word,
        count,
        pattern: pattern.as_bytes().to_vec(),
        file: Vec::new(),
    }
}

#[test]
fn test_simple_match() {
    let input = b"This is a test line with the pattern.\nAnother line.\n".to_vec();
    let grep_cmd = GrepCmd::new(vec![]);

    let result = grep_cmd.raw_run(&input, &grep_args(false, false, 0, "pattern"));

    assert!(result.is_ok());
    let output = String::from_utf8(result.unwrap()).unwrap();
    assert_eq!(output, "This is a test line with the pattern.\n");
}

#[test]
fn test_case_insensitive() {
    let input = b"This is a test line with the pattern.\nAnother line.\n".to_vec();
    let grep_cmd = GrepCmd::new(vec![]);

    let result = grep_cmd.raw_run(&input, &grep_args(true, false, 0, "PATTERN"));

    assert!(result.is_ok());
    let output = String::from_utf8(result.unwrap()).unwrap();
    assert_eq!(output, "This is a test line with the pattern.\n");
}

#[test]
fn test_whole_word() {
    let input = b"This is a test line with pattern matching.\nAnother line.\n".to_vec();
    let grep_cmd = GrepCmd::new(vec![]);

    let result = grep_cmd.raw_run(&input, &grep_args(false, true, 0, "pattern"));

    assert!(result.is_ok());
    let output = String::from_utf8(result.unwrap()).unwrap();
    assert_eq!(output, "This is a test line with pattern matching.\n");
}

#[test]
fn test_after_count() {
    let input =
        b"Line 1\nThis line has the pattern.\nLine 3\nLine 4\nAnother pattern line.\nLine 6\n"
            .to_vec();
    let grep_cmd = GrepCmd::new(vec![]);

    let result = grep_cmd.raw_run(&input, &grep_args(false, true, 1, "pattern"));

    assert!(result.is_ok());
    let output = String::from_utf8(result.unwrap()).unwrap();
    assert_eq!(
        output,
        "This line has the pattern.\nLine 3\nAnother pattern line.\nLine 6\n"
    );
}

#[test]
fn test_no_match() {
    let input = b"This is a test line with the pattern.\nAnother line.\n".to_vec();
    let grep_cmd = GrepCmd::new(vec![]);

    let result = grep_cmd.raw_run(&input, &grep_args(false, true, 1, "notfound"));

    assert!(result.is_ok());
    let output = String::from_utf8(result.unwrap()).unwrap();
    assert!(output.is_empty());
}

#[test]
fn bad_pattern_reports_an_error() {
    let input = b"one line\n".to_vec();
    let grep_cmd = GrepCmd::new(vec![]);
    let result = grep_cmd.raw_run(&input, &grep_args(false, false, 0, "(unclosed"));
    assert_eq!(result, Err(b"invalid pattern".to_vec()));
}

#[test]
fn echo_joins_arguments_with_spaces() {
    let cmd = EchoCmd::new(vec![b"a".to_vec(), b"b c".to_vec(), b"d".to_vec()]);
    assert_eq!(cmd.run(), b"a b c d\n".to_vec());
    let empty = EchoCmd::new(vec![]);
    assert_eq!(empty.run(), b"\n".to_vec());
}

#[test]
fn wc_counts_lines_words_and_bytes() {
    let stat = WcCmd::get_stat(&b"one two\nthree  four\n\n".to_vec());
    assert_eq!(stat.lines, 3);
    assert_eq!(stat.words, 4);
    assert_eq!(stat.bytes, 21);

    // A last word without a trailing separator still counts.
    let stat = WcCmd::get_stat(&b"one two".to_vec());
    assert_eq!(stat.lines, 0);
    assert_eq!(stat.words, 2);
    assert_eq!(stat.bytes, 7);

    let stat = WcCmd::get_stat(&Vec::new());
    assert_eq!(stat.lines, 0);
    assert_eq!(stat.words, 0);
    assert_eq!(stat.bytes, 0);
}

#[test]
fn wc_width_grows_with_the_total_size() {
    assert_eq!(WcCmd::compute_number_width(false, 0), 1);
    assert_eq!(WcCmd::compute_number_width(false, 9), 1);
    assert_eq!(WcCmd::compute_number_width(false, 10), 2);
    assert_eq!(WcCmd::compute_number_width(false, 123456), 6);
    assert_eq!(WcCmd::compute_number_width(true, 0), 7);
    assert_eq!(WcCmd::compute_number_width(true, 12345678), 8);
}

#[test]
fn wc_rows_are_right_aligned() {
    let cmd = WcCmd::new(vec![b"a".to_vec(), b"b".to_vec()]);
    let out = cmd
        .run(
            &Vec::new(),
            &vec![Ok(b"one two\n".to_vec()), Ok(b"x\ny\n".to_vec())],
        )
        .unwrap();
    // Total regular size is 12 bytes: width 2.
    assert_eq!(
        String::from_utf8(out).unwrap(),
        " 1  2  8 a\n 2  2  4 b\n 3  4 12 total\n"
    );
}

#[test]
fn wc_counts_the_input_once_for_repeated_dashes() {
    let cmd = WcCmd::new(vec![b"-".to_vec(), b"-".to_vec()]);
    let out = cmd
        .run(&b"a b\n".to_vec(), &vec![Ok(Vec::new()), Ok(Vec::new())])
        .unwrap();
    // The first `-` counts the whole input; the second counts an exhausted
    // stream. Width is 7 because the input stream is counted.
    assert_eq!(
        String::from_utf8(out).unwrap(),
        "      1       2       4 -\n      0       0       0 -\n      1       2       4 total\n"
    );
}

#[test]
fn wc_reports_the_first_failing_file() {
    let cmd = WcCmd::new(vec![b"a".to_vec(), b"b".to_vec()]);
    let out = cmd.run(
        &Vec::new(),
        &vec![Err(b"a: not here".to_vec()), Err(b"b: not here".to_vec())],
    );
    assert_eq!(out, Err(b"a: not here".to_vec()));
}

#[test]
fn cat_concatenates_files_and_input() {
    let cmd = CatCmd::new(vec![b"x".to_vec(), b"-".to_vec(), b"y".to_vec()]);
    let (out, err) = cmd.run(
        &b"IN".to_vec(),
        &vec![Ok(b"one".to_vec()), Ok(Vec::new()), Ok(b"two".to_vec())],
    );
    assert!(err.is_none());
    assert_eq!(out, b"oneINtwo".to_vec());
}

#[test]
fn cat_without_arguments_copies_its_input() {
    let cmd = CatCmd::new(vec![]);
    assert_eq!(cmd.sources(), vec![b"-".to_vec()]);
    let (out, err) = cmd.run(&b"data".to_vec(), &vec![Ok(Vec::new())]);
    assert!(err.is_none());
    assert_eq!(out, b"data".to_vec());
}

#[test]
fn cat_keeps_the_prefix_written_before_the_first_failure() {
    let cmd = CatCmd::new(vec![b"x".to_vec(), b"y".to_vec(), b"z".to_vec()]);
    let (out, err) = cmd.run(
        &Vec::new(),
        &vec![Ok(b"one".to_vec()), Err(b"y: gone".to_vec()), Ok(b"never".to_vec())],
    );
    // The copy stops at the first failed read, but what was already copied
    // stays written.
    assert_eq!(out, b"one".to_vec());
    assert_eq!(err, Some(b"y: gone".to_vec()));
}

#[test]
fn cat_input_is_consumed_by_the_first_dash() {
    let cmd = CatCmd::new(vec![b"-".to_vec(), b"-".to_vec()]);
    let (out, err) = cmd.run(&b"once".to_vec(), &vec![Ok(Vec::new()), Ok(Vec::new())]);
    assert!(err.is_none());
    // The second `-` reads the input stream exhausted.
    assert_eq!(out, b"once".to_vec());
}

#[test]
fn ls_lists_directories_and_files() {
    let cmd = LsCmd::new(vec![b"d".to_vec(), b"f".to_vec()]);
    let out = cmd.run(&vec![
        Listing::Dir(vec![b"a.txt".to_vec(), b"b.txt".to_vec()]),
        Listing::File(b"f".to_vec()),
    ]);
    assert_eq!(String::from_utf8(out).unwrap(), "d:\na.txt b.txt\n\nf:\nf\n");
}

#[test]
fn ls_reports_a_missing_path() {
    let cmd = LsCmd::new(vec![b"gone".to_vec()]);
    let out = cmd.run(&vec![Listing::Missing]);
    assert_eq!(
        String::from_utf8(out).unwrap(),
        "ls: cannot access 'gone': No such file or directory\n"
    );
}

#[test]
fn cd_joins_relative_paths_against_the_current_directory() {
    let mut env = Env::new();
    env.set_dir(b"/home/user".to_vec());
    let cmd = CdCmd::new(vec![b"work".to_vec()]);
    assert_eq!(cmd.target(&env), Some(b"/home/user/work".to_vec()));

    let abs = CdCmd::new(vec![b"/etc".to_vec()]);
    assert_eq!(abs.target(&env), Some(b"/etc".to_vec()));

    let home = CdCmd::new(vec![]);
    assert_eq!(home.target(&env), None);

    let cmd = CdCmd::new(vec![b"gone".to_vec()]);
    assert_eq!(
        String::from_utf8(cmd.not_found_message()).unwrap(),
        "cd: 'gone': No such file or directory\n"
    );
}

#[test]
fn environment_reads_back_what_was_set() {
    let mut env = Env::new();
    assert_eq!(env.get(b"a".to_vec()), Vec::<u8>::new());
    env.set(b"a".to_vec(), b"1".to_vec());
    env.set(b"b".to_vec(), b"2".to_vec());
    assert_eq!(env.get(b"a".to_vec()), b"1".to_vec());
    env.set(b"a".to_vec(), b"3".to_vec());
    assert_eq!(env.get(b"a".to_vec()), b"3".to_vec());
    assert_eq!(env.get(b"b".to_vec()), b"2".to_vec());
}

#[test]
fn with_assigns_appends_overrides_after_the_stored_bindings() {
    let mut env = Env::new();
    env.set(b"a".to_vec(), b"1".to_vec());
    let vars = env.with_assigns(vec![EnvAssign::new(b"b".to_vec(), b"2".to_vec())]);
    assert_eq!(
        vars,
        vec![(b"a".to_vec(), b"1".to_vec()), (b"b".to_vec(), b"2".to_vec())]
    );
}

#[test]
fn whole_word_escapes_metacharacters() {
    // Under `-w` the pattern is escaped: `.` is a literal dot, not any-byte.
    let input = b"a patXtern here\n".to_vec();
    let grep_cmd = GrepCmd::new(vec![]);
    let escaped = grep_cmd.raw_run(&input, &grep_args(false, true, 0, "pat.tern"));
    assert_eq!(escaped, Ok(Vec::new()));

    // Without `-w` the same pattern is a regular expression and matches.
    let raw = grep_cmd.raw_run(&input, &grep_args(false, false, 0, "pat.tern"));
    assert_eq!(raw, Ok(b"a patXtern here\n".to_vec()));
}

#[test]
fn case_folding_reaches_beyond_ascii() {
    let input = "première école\nanother line\n".as_bytes().to_vec();
    let grep_cmd = GrepCmd::new(vec![]);
    let result = grep_cmd.raw_run(&input, &grep_args(true, false, 0, "ÉCOLE"));
    assert_eq!(result, Ok("première école\n".as_bytes().to_vec()));
}
