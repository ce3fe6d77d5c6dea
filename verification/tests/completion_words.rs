use std::collections::VecDeque;

use remotec::completion::balance_and_split;
use remotec::completion::count_char_in;
use remotec::completion::filter_existing_options;
use remotec::completion::option_mentioned;
use remotec::completion::option_suggestions;
use remotec::completion::rdp_options;
use remotec::completion::ssh_options;
use remotec::completion::CliOption;
use remotec::completion::Context;
use remotec::strutil::join_with;
use remotec::strutil::split_on;
use remotec::strutil::u16_to_dec;

#[test]
fn decimal_rendering_is_exact() {
    assert_eq!(u16_to_dec(0), "0");
    assert_eq!(u16_to_dec(7), "7");
    assert_eq!(u16_to_dec(22), "22");
    assert_eq!(u16_to_dec(8080), "8080");
    assert_eq!(u16_to_dec(65535), "65535");
}

#[test]
fn split_and_join_are_inverse_on_lines() {
    let text = "a\nbb\n\nc";
    let lines = split_on(text, '\n');
    assert_eq!(lines, vec!["a", "bb", "", "c"]);
    assert_eq!(join_with(&lines, "\n"), text);
}

#[test]
fn counting_characters() {
    assert_eq!(count_char_in("a'b'c'", '\''), 3);
    assert_eq!(count_char_in("", '\''), 0);
}

#[test]
fn plain_lines_split_into_words() {
    assert_eq!(
        balance_and_split("remotec ssh box"),
        Some(vec!["remotec".to_owned(), "ssh".to_owned(), "box".to_owned()])
    );
}

#[test]
fn a_started_quote_counts_as_one_word() {
    assert_eq!(
        balance_and_split("remotec ssh 'my box"),
        Some(vec!["remotec".to_owned(), "ssh".to_owned(), "my box".to_owned()])
    );
    assert_eq!(
        balance_and_split("remotec ssh \"my box"),
        Some(vec!["remotec".to_owned(), "ssh".to_owned(), "my box".to_owned()])
    );
}

#[test]
fn options_already_given_are_filtered_out() {
    let args: Vec<String> = vec![
        "remotec".to_owned(),
        "ssh".to_owned(),
        "box".to_owned(),
        "--ipv4".to_owned(),
    ];
    let remaining = filter_existing_options(&args, 2, &ssh_options());
    let suggested = option_suggestions(&remaining);
    assert!(!suggested.contains(&"--ipv4"));
    assert!(suggested.contains(&"--ipv6"));
    assert!(suggested.contains(&"--stdout"));
}

#[test]
fn short_spellings_also_count_as_given() {
    let args: Vec<String> = vec!["remotec".to_owned(), "ssh".to_owned(), "-j".to_owned()];
    let opts = ssh_options();
    assert!(option_mentioned(&args, 2, &opts[4]));
    let remaining = filter_existing_options(&args, 2, &opts);
    let suggested = option_suggestions(&remaining);
    assert!(!suggested.contains(&"--use-jump-hosts"));
}

#[test]
fn arguments_before_the_marker_do_not_filter() {
    let args: Vec<String> = vec!["--ipv4".to_owned(), "ssh".to_owned()];
    let remaining = filter_existing_options(&args, 2, &ssh_options());
    assert_eq!(remaining.len(), ssh_options().len());
}

#[test]
fn suggestion_prefers_the_long_form() {
    let o = CliOption::new(Some("-d"), Some("--disable-gateway"));
    assert_eq!(o.suggestion(), Some("--disable-gateway"));
    assert_eq!(o.strings(), vec!["--disable-gateway", "-d"]);
    let short_only = CliOption::new(Some("-x"), None);
    assert_eq!(short_only.suggestion(), Some("-x"));
}

#[test]
fn rdp_flag_list_is_complete() {
    let suggested = option_suggestions(&rdp_options());
    assert_eq!(
        suggested,
        vec![
            "--disable-gateway",
            "edit",
            "--enable-gateway",
            "--help",
            "--ipv4",
            "--ipv6",
            "--stdout",
        ]
    );
}

#[test]
fn context_reads_words_in_order() {
    let mut pending = VecDeque::new();
    pending.push_back("ssh".to_owned());
    pending.push_back("bo".to_owned());
    let mut ctx = Context {
        up_to_cursor_str: "remotec ssh bo".to_owned(),
        pending_args_up_to_cursor: pending,
        all_args: vec!["remotec".to_owned(), "ssh".to_owned(), "bo".to_owned()],
        current_idx: 1,
    };
    assert!(ctx.new_arg());
    assert_eq!(ctx.next_arg(), Some("ssh".to_owned()));
    assert_eq!(ctx.current_idx, 2);
    assert_eq!(ctx.next_arg(), Some("bo".to_owned()));
    // The last word is being typed: the cursor does not start a new one.
    assert!(!ctx.new_arg());
    assert_eq!(ctx.next_arg(), None);
    assert_eq!(ctx.current_idx, 3);
}

#[test]
fn a_trailing_space_starts_a_new_argument() {
    let ctx = Context {
        up_to_cursor_str: "remotec ssh ".to_owned(),
        pending_args_up_to_cursor: VecDeque::new(),
        all_args: vec!["remotec".to_owned(), "ssh".to_owned()],
        current_idx: 2,
    };
    assert!(ctx.new_arg());
}
