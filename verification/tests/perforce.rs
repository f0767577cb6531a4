use p4tohg::date::DateTime;
use p4tohg::perforce::change::parse_plus_number;
use p4tohg::perforce::change::read_changes;
use p4tohg::perforce::change::read_lines;
use p4tohg::perforce::client::check_ending;
use p4tohg::perforce::Change;
use p4tohg::perforce::ChangeDraft;
use p4tohg::perforce::PerforceClient;
use p4tohg::perforce::PerforceError;
use p4tohg::process::Execution;
use p4tohg::process::Invocation;
use p4tohg::process::Prompt;

const TICKET: &str = "0123456789ABCDEF0123456789ABCDEF";
const PROMPT: &str = "Enter password: ";

fn asked(rest: &str) -> String {
    format!("{}{}", PROMPT, rest)
}

fn client() -> PerforceClient {
    PerforceClient::new("p4", "/work", "ws", "depot:1666", "bob", "secret", ".p4ignore")
}

fn logged_in() -> PerforceClient {
    let mut client = client();
    assert_eq!(client.login(&Execution::exited(&asked(TICKET), Some(0))), Ok(()));
    client
}

fn pair(name: &str, value: &str) -> (String, String) {
    (name.to_string(), value.to_string())
}

fn session_environment() -> Vec<(String, String)> {
    vec![
        pair("P4CLIENT", "ws"),
        pair("P4PORT", "depot:1666"),
        pair("P4PASSWD", TICKET),
        pair("P4USER", "bob"),
    ]
}

fn words(list: &[&str]) -> Vec<String> {
    list.iter().map(|word| word.to_string()).collect()
}

fn rows(list: &[&str]) -> Vec<Vec<char>> {
    list.iter().map(|line| line.chars().collect()).collect()
}

fn date(year: i32, month: i32, day: i32, hour: i32, minute: i32, second: i32) -> DateTime {
    DateTime {
        second,
        minute,
        hour,
        day,
        month,
        year,
        weekday: 0,
        yearday: 0,
        isdst: 0,
        utcoff: 0,
        nanosecond: 0,
    }
}

const DESCRIPTION: &str = "# A Perforce Change Specification.\n\
Change:\t10\n\
\n\
Date:\t2018/03/04 05:06:07\n\
\n\
Client:\tws\n\
\n\
User:\tbob\n\
\n\
Status:\tsubmitted\n\
\n\
Description:\n\
\tfirst line\n\
\tsecond line\n";

#[test]
fn login_command_asks_for_the_ticket() {
    let run = client().login_command();
    assert_eq!(
        run,
        Invocation {
            command: "p4".to_string(),
            work_dir: "/work".to_string(),
            environment: vec![pair("P4PORT", "depot:1666"), pair("P4USER", "bob")],
            arguments: words(&["login", "-p"]),
            prompt: Some(Prompt {
                expect: "Enter password: ".to_string(),
                reply: "secret\n".to_string(),
            }),
            capture: true,
            lenient: false,
        }
    );
}

#[test]
fn login_takes_a_ticket_of_32_characters() {
    let mut client = client();
    assert!(!client.is_logged_in());
    assert_eq!(client.login(&Execution::exited(&asked(&format!("  {}\r\n", TICKET)), Some(0))), Ok(()));
    assert!(client.is_logged_in());
    let run = client.logout_command().unwrap();
    assert_eq!(run.environment[1], pair("P4PASSWD", TICKET));
}

#[test]
fn login_with_a_ticket_of_31_characters_fails() {
    let mut client = client();
    let short = &TICKET[1..];
    assert_eq!(short.len(), 31);
    assert_eq!(client.login(&Execution::exited(&asked(short), Some(0))), Err(PerforceError::LoginFailed));
    assert!(!client.is_logged_in());
    assert_eq!(client.logout_command(), None);
    assert_eq!(client.sync_command("//depot/a/", 1), Err(PerforceError::NotLoggedIn));
}

#[test]
fn login_with_a_ticket_of_33_characters_or_none_fails() {
    let mut client = client();
    let long = format!("{}0", TICKET);
    assert_eq!(client.login(&Execution::exited(&asked(&long), Some(0))), Err(PerforceError::LoginFailed));
    assert_eq!(client.login(&Execution::exited(&asked(""), Some(0))), Err(PerforceError::LoginFailed));
    assert_eq!(
        client.login(&Execution::exited(&asked("Password invalid.\n"), Some(1))),
        Err(PerforceError::LoginFailed)
    );
    assert!(!client.is_logged_in());
}

#[test]
fn login_counts_characters() {
    let mut client = client();
    let ticket = "\u{e9}".repeat(32);
    assert_eq!(client.login(&Execution::exited(&asked(&ticket), Some(0))), Ok(()));
    assert!(client.is_logged_in());
}

#[test]
fn login_fails_with_the_error_of_the_run() {
    let mut client = client();
    assert_eq!(
        client.login(&Execution::not_started("no such file")),
        Err(PerforceError::ExecutionError { message: "no such file".to_string() })
    );
    assert_eq!(
        client.login(&Execution::interrupted(&asked(TICKET), "broken pipe")),
        Err(PerforceError::CommunicationError { message: "broken pipe".to_string() })
    );
    assert_eq!(
        client.login(&Execution::unfinished(&asked(TICKET), "no child")),
        Err(PerforceError::IoError { message: "no child".to_string() })
    );
    assert_eq!(
        client.login(&Execution::exited(&asked(TICKET), Some(2))),
        Err(PerforceError::ExitError { exit_code: Some(2) })
    );
    assert_eq!(
        client.login(&Execution::exited(&asked(TICKET), None)),
        Err(PerforceError::ExitError { exit_code: None })
    );
    assert_eq!(
        client.login(&Execution::unfinished(&asked("short"), "no child")),
        Err(PerforceError::LoginFailed)
    );
    assert!(!client.is_logged_in());
}

#[test]
fn login_without_the_prompt_fails() {
    let mut client = client();
    for output in [
        TICKET.to_string(),
        format!("Enter password:{}", TICKET),
        format!("enter password: {}", TICKET),
        format!(" {}{}", PROMPT, TICKET),
        format!("Password: {}", TICKET),
        String::new(),
    ] {
        assert_eq!(
            client.login(&Execution::exited(&output, Some(0))),
            Err(PerforceError::LoginFailed),
            "{:?}",
            output
        );
        assert!(!client.is_logged_in());
    }
}

#[test]
fn changes_of_an_interrupted_listing_count_by_whole_lines() {
    let client = logged_in();
    assert_eq!(
        client.changes(&Execution::interrupted("Change 1\nChange x", "reset")),
        Err(PerforceError::CommunicationError { message: "reset".to_string() })
    );
    assert_eq!(
        client.changes(&Execution::interrupted("Change x\nChange 1", "reset")),
        Err(PerforceError::ParsingChangeFailed)
    );
    assert_eq!(
        client.changes(&Execution::interrupted("Change ", "reset")),
        Err(PerforceError::CommunicationError { message: "reset".to_string() })
    );
    assert_eq!(
        client.changes(&Execution::unfinished("Change 1\nChange x", "lost")),
        Err(PerforceError::ParsingChangeFailed)
    );
    assert_eq!(
        client.changes(&Execution::exited("Change 1\nChange x", Some(0))),
        Err(PerforceError::ParsingChangeFailed)
    );
}

#[test]
fn logout_ends_the_session_whatever_the_run_says() {
    let mut client = logged_in();
    let run = client.logout_command().unwrap();
    assert_eq!(
        run,
        Invocation {
            command: "p4".to_string(),
            work_dir: "/work".to_string(),
            environment: vec![
                pair("P4PORT", "depot:1666"),
                pair("P4PASSWD", TICKET),
                pair("P4USER", "bob"),
            ],
            arguments: words(&["logout"]),
            prompt: None,
            capture: false,
            lenient: false,
        }
    );
    assert_eq!(
        client.logout(&Execution::exited("", Some(1))),
        Err(PerforceError::ExitError { exit_code: Some(1) })
    );
    assert!(!client.is_logged_in());
    let mut client = logged_in();
    assert_eq!(client.logout(&Execution::exited("", Some(0))), Ok(()));
    assert!(!client.is_logged_in());
}

#[test]
fn logout_without_a_session_does_nothing() {
    let mut client = client();
    assert_eq!(client.logout_command(), None);
    assert_eq!(client.logout(&Execution::exited("", Some(1))), Ok(()));
    assert_eq!(client.logout(&Execution::not_started("gone")), Ok(()));
    assert!(!client.is_logged_in());
}

#[test]
fn operations_need_a_session() {
    let client = client();
    let fine = Execution::exited("", Some(0));
    assert_eq!(client.sync_command("//depot/a/", 5), Err(PerforceError::NotLoggedIn));
    assert_eq!(client.clean_command("//depot/a/"), Err(PerforceError::NotLoggedIn));
    assert_eq!(client.changes_command("//depot/a/", 5), Err(PerforceError::NotLoggedIn));
    assert_eq!(client.change_command(5), Err(PerforceError::NotLoggedIn));
    assert_eq!(client.sync(&fine), Err(PerforceError::NotLoggedIn));
    assert_eq!(client.clean(&fine), Err(PerforceError::NotLoggedIn));
    assert_eq!(client.changes(&fine), Err(PerforceError::NotLoggedIn));
    assert_eq!(client.change(5, &fine), Err(PerforceError::NotLoggedIn));
}

#[test]
fn sync_command_names_directory_and_change() {
    let run = logged_in().sync_command("//depot/project/", 1234).unwrap();
    assert_eq!(
        run,
        Invocation {
            command: "p4".to_string(),
            work_dir: "/work".to_string(),
            environment: session_environment(),
            arguments: words(&["sync", "-q", "//depot/project/...@1234"]),
            prompt: None,
            capture: false,
            lenient: false,
        }
    );
}

#[test]
fn clean_command_adds_the_ignore_file() {
    let run = logged_in().clean_command("//depot/project/").unwrap();
    let mut environment = session_environment();
    environment.push(pair("P4IGNORE", ".p4ignore"));
    assert_eq!(
        run,
        Invocation {
            command: "p4".to_string(),
            work_dir: "/work".to_string(),
            environment,
            arguments: words(&["clean", "//depot/project/..."]),
            prompt: None,
            capture: false,
            lenient: false,
        }
    );
}

#[test]
fn changes_command_lists_from_the_resume_point() {
    let run = logged_in().changes_command("//depot/project/", 4294967296).unwrap();
    assert_eq!(
        run,
        Invocation {
            command: "p4".to_string(),
            work_dir: "/work".to_string(),
            environment: session_environment(),
            arguments: words(&[
                "-F",
                "%change%",
                "changes",
                "-e",
                "4294967296",
                "//depot/project/...",
            ]),
            prompt: None,
            capture: true,
            lenient: false,
        }
    );
}

#[test]
fn change_command_describes_one_change() {
    let run = logged_in().change_command(77).unwrap();
    assert_eq!(
        run,
        Invocation {
            command: "p4".to_string(),
            work_dir: "/work".to_string(),
            environment: session_environment(),
            arguments: words(&["change", "-o", "77"]),
            prompt: None,
            capture: true,
            lenient: true,
        }
    );
}

#[test]
fn sync_and_clean_give_the_error_of_the_run() {
    let client = logged_in();
    assert_eq!(client.sync(&Execution::exited("", Some(0))), Ok(()));
    assert_eq!(client.clean(&Execution::exited("ignored", Some(0))), Ok(()));
    assert_eq!(
        client.sync(&Execution::exited("", Some(1))),
        Err(PerforceError::ExitError { exit_code: Some(1) })
    );
    assert_eq!(
        client.clean(&Execution::exited("", Some(-1))),
        Err(PerforceError::ExitError { exit_code: Some(-1) })
    );
    assert_eq!(
        client.sync(&Execution::not_started("denied")),
        Err(PerforceError::ExecutionError { message: "denied".to_string() })
    );
    assert_eq!(
        client.clean(&Execution::unfinished("", "interrupted")),
        Err(PerforceError::IoError { message: "interrupted".to_string() })
    );
    assert_eq!(
        client.sync(&Execution::interrupted("", "reset")),
        Err(PerforceError::CommunicationError { message: "reset".to_string() })
    );
}

#[test]
fn check_ending_takes_exit_code_zero_for_success() {
    assert_eq!(check_ending(&Execution::exited("x", Some(0))), Ok(()));
    assert_eq!(
        check_ending(&Execution::exited("x", Some(255))),
        Err(PerforceError::exit_error(Some(255)))
    );
    assert_eq!(check_ending(&Execution::exited("x", None)), Err(PerforceError::exit_error(None)));
}

#[test]
fn changes_come_out_ascending_and_once() {
    let client = logged_in();
    let listing = Execution::exited("Change 12\nChange 10\nChange 11\nChange 10\n", Some(0));
    assert_eq!(client.changes(&listing), Ok(vec![10, 11, 12]));
    let listing = Execution::exited("Change 3\r\nChange 1", Some(0));
    assert_eq!(client.changes(&listing), Ok(vec![1, 3]));
    assert_eq!(client.changes(&Execution::exited("", Some(0))), Ok(vec![]));
}

#[test]
fn changes_skip_the_lines_that_name_no_change() {
    let client = logged_in();
    let listing = Execution::exited(
        "Changes follow\nchange 5\n Change 6\nChange 7\n\nChange +8\nChange 0009\n",
        Some(0),
    );
    assert_eq!(client.changes(&listing), Ok(vec![7, 8, 9]));
}

#[test]
fn changes_fail_on_a_number_that_cannot_be_read() {
    let client = logged_in();
    for output in [
        "Change ten\n",
        "Change 10 by bob\n",
        "Change \n",
        "Change 4294967296\n",
        "Change -1\n",
        "Change 1\nChange x\nChange 2\n",
        "Change +\n",
        "Change  7\n",
    ] {
        assert_eq!(
            client.changes(&Execution::exited(output, Some(0))),
            Err(PerforceError::ParsingChangeFailed),
            "{:?}",
            output
        );
    }
}

#[test]
fn changes_put_a_line_that_cannot_be_read_before_the_error_of_the_run() {
    let client = logged_in();
    assert_eq!(
        client.changes(&Execution::exited("Change x\n", Some(1))),
        Err(PerforceError::ParsingChangeFailed)
    );
    assert_eq!(
        client.changes(&Execution::interrupted("Change x\n", "reset")),
        Err(PerforceError::ParsingChangeFailed)
    );
    assert_eq!(
        client.changes(&Execution::interrupted("Change 1\n", "reset")),
        Err(PerforceError::CommunicationError { message: "reset".to_string() })
    );
    assert_eq!(
        client.changes(&Execution::exited("Change 1\n", Some(1))),
        Err(PerforceError::ExitError { exit_code: Some(1) })
    );
    assert_eq!(
        client.changes(&Execution::unfinished("Change 1\n", "lost")),
        Err(PerforceError::IoError { message: "lost".to_string() })
    );
    assert_eq!(
        client.changes(&Execution::not_started("missing")),
        Err(PerforceError::ExecutionError { message: "missing".to_string() })
    );
}

#[test]
fn read_changes_reads_the_lines_of_a_listing() {
    assert_eq!(read_changes(&rows(&["Change 2", "other", "Change 1"])), Some(vec![2, 1]));
    assert_eq!(read_changes(&rows(&[])), Some(vec![]));
    assert_eq!(read_changes(&rows(&["Change 2", "Change"])), Some(vec![2]));
    assert_eq!(read_changes(&rows(&["Change 2", "Change two"])), None);
}

#[test]
fn numbers_may_begin_with_a_plus_sign() {
    let read = |text: &str| parse_plus_number(&text.chars().collect());
    assert_eq!(read("15"), Some(15));
    assert_eq!(read("+15"), Some(15));
    assert_eq!(read("++15"), None);
    assert_eq!(read("+"), None);
    assert_eq!(read(""), None);
    assert_eq!(read("-15"), None);
    assert_eq!(read("15 "), None);
    assert_eq!(read("4294967295"), Some(u32::MAX));
    assert_eq!(read("+4294967296"), None);
}

#[test]
fn change_is_read_from_its_description() {
    let client = logged_in();
    let change = client.change(10, &Execution::exited(DESCRIPTION, Some(0))).unwrap();
    assert_eq!(change.change(), 10);
    assert_eq!(change.date(), &date(118, 2, 4, 5, 6, 7));
    assert_eq!(change.user(), "bob");
    assert_eq!(change.description(), "first line\nsecond line");
    assert_eq!(change, Change::new(10, date(118, 2, 4, 5, 6, 7), "bob", "first line\nsecond line"));
}

#[test]
fn the_lines_of_a_description_are_joined_by_line_feeds() {
    let client = logged_in();
    let output = "Change:\t10\nDate:\t2018/05/04 12:30:05\nUser:\talice\nDescription:\n\tfirst\n\t\tsecond\n";
    let change = client.change(10, &Execution::exited(output, Some(0))).unwrap();
    assert_eq!(change.description(), "first\n\tsecond");
    assert_eq!(change.description().chars().count(), 13);
    assert_eq!(change.user(), "alice");
    assert_eq!(change.date(), &date(118, 4, 4, 12, 30, 5));
}

#[test]
fn empty_lines_of_a_description_are_kept() {
    let client = logged_in();
    let head = "Change:\t1\nDate:\t2001/01/01 00:00:00\nUser:\tann\nDescription:\n";
    let read = |lines: &str| {
        let output = format!("{}{}", head, lines);
        client.change(1, &Execution::exited(&output, Some(0))).unwrap().description().to_string()
    };
    assert_eq!(read(""), "");
    assert_eq!(read("\t\n"), "");
    assert_eq!(read("\t\n\t\n"), "\n");
    assert_eq!(read("\t\n\tb\n"), "\nb");
    assert_eq!(read("\ta\n\t\n"), "a\n");
    assert_eq!(read("\ta\n\t\n\tc\n"), "a\n\nc");
    assert_eq!(read("\ta\nnot a line\n\tb"), "a\nb");
}

#[test]
fn change_keeps_what_is_not_ascii_in_the_description() {
    let client = logged_in();
    let output = "Change:\t3\nDate:\t1999/12/31 23:59:60\nUser:\tren\u{e9}e\nDescription:\n\tcaf\u{e9}\n";
    let change = client.change(3, &Execution::exited(output, Some(0))).unwrap();
    assert_eq!(change.date(), &date(99, 11, 31, 23, 59, 60));
    assert_eq!(change.user(), "ren\u{e9}e");
    assert_eq!(change.description(), "caf\u{e9}");
}

#[test]
fn change_without_one_of_its_fields_is_incorrect() {
    let client = logged_in();
    let lacking = [
        "Date:\t2018/03/04 05:06:07\nUser:\tbob\nDescription:\n\ttext\n",
        "Change:\t10\nUser:\tbob\nDescription:\n\ttext\n",
        "Change:\t10\nDate:\t2018/03/04 05:06:07\nDescription:\n\ttext\n",
        "Change:\t10\nDate:\t2018/03/04 05:06:07\nUser:\tbob\n\ttext\n",
        "",
    ];
    for output in lacking {
        assert_eq!(
            client.change(10, &Execution::exited(output, Some(0))),
            Err(PerforceError::IncorrectChange { commit: 10 }),
            "{:?}",
            output
        );
    }
}

#[test]
fn change_with_an_empty_description_is_complete() {
    let client = logged_in();
    let output = "Change:\t10\nDate:\t2018/03/04 05:06:07\nUser:\tbob\nDescription:\n";
    let change = client.change(10, &Execution::exited(output, Some(0))).unwrap();
    assert_eq!(change.description(), "");
}

#[test]
fn change_names_the_change_that_was_asked_for_when_incorrect() {
    let client = logged_in();
    assert_eq!(
        client.change(99, &Execution::exited("Change:\t10\n", Some(0))),
        Err(PerforceError::incorrect_change(99))
    );
}

#[test]
fn change_fails_on_a_number_or_a_date_that_cannot_be_read() {
    let client = logged_in();
    assert_eq!(
        client.change(10, &Execution::exited("Change:\tten\n", Some(0))),
        Err(PerforceError::ParsingChangeFailed)
    );
    assert_eq!(
        client.change(10, &Execution::exited("Change:\n", Some(0))),
        Err(PerforceError::ParsingChangeFailed)
    );
    assert_eq!(
        client.change(10, &Execution::exited("Date:\tyesterday\n", Some(0))),
        Err(PerforceError::DateParseError { message: "Invalid year.".to_string() })
    );
    assert_eq!(
        client.change(10, &Execution::exited("Date:\t2018/13/04 05:06:07\n", Some(0))),
        Err(PerforceError::DateParseError { message: "Invalid month.".to_string() })
    );
    assert_eq!(
        client.change(10, &Execution::exited("Date:\t2018-03-04 05:06:07\n", Some(0))),
        Err(PerforceError::DateParseError { message: "Unexpected character.".to_string() })
    );
    assert_eq!(
        client.change(10, &Execution::exited("Date:\t2018/03/04\n", Some(0))),
        Err(PerforceError::DateParseError { message: "Invalid time.".to_string() })
    );
}

#[test]
fn change_fails_on_the_first_line_that_cannot_be_read() {
    let client = logged_in();
    assert_eq!(
        client.change(10, &Execution::exited("Date:\tx\nChange:\tx\n", Some(0))),
        Err(PerforceError::DateParseError { message: "Invalid year.".to_string() })
    );
    assert_eq!(
        client.change(10, &Execution::exited("Change:\tx\nDate:\tx\n", Some(0))),
        Err(PerforceError::ParsingChangeFailed)
    );
    assert_eq!(
        client.change(10, &Execution::exited("Change:\tx\n", Some(1))),
        Err(PerforceError::ParsingChangeFailed)
    );
}

#[test]
fn change_gives_the_error_of_the_run_before_a_missing_field() {
    let client = logged_in();
    assert_eq!(
        client.change(10, &Execution::exited("", Some(1))),
        Err(PerforceError::ExitError { exit_code: Some(1) })
    );
    assert_eq!(
        client.change(10, &Execution::exited(DESCRIPTION, Some(1))),
        Err(PerforceError::ExitError { exit_code: Some(1) })
    );
    assert_eq!(
        client.change(10, &Execution::unfinished(DESCRIPTION, "lost")),
        Err(PerforceError::IoError { message: "lost".to_string() })
    );
    assert_eq!(
        client.change(10, &Execution::interrupted("Change:\tx\n", "reset")),
        Err(PerforceError::CommunicationError { message: "reset".to_string() })
    );
    assert_eq!(
        client.change(10, &Execution::not_started("missing")),
        Err(PerforceError::ExecutionError { message: "missing".to_string() })
    );
}

#[test]
fn the_last_line_of_a_field_counts() {
    let client = logged_in();
    let output = "Change:\t1\nChange:\t2\nDate:\t2001/01/01 00:00:00\nDate:\t2002/02/02 02:02:02\n\
User:\tann\nUser:\tbob\nDescription:\n\tone\nUser:\tcy\n\ttwo\n";
    let change = client.change(2, &Execution::exited(output, Some(0))).unwrap();
    assert_eq!(change.change(), 2);
    assert_eq!(change.date(), &date(102, 1, 2, 2, 2, 2));
    assert_eq!(change.user(), "cy");
    assert_eq!(change.description(), "one\ntwo");
}

#[test]
fn lines_with_a_tab_before_the_description_say_nothing() {
    let client = logged_in();
    let output = "\tstray\nChange:\t1\nDate:\t2001/01/01 00:00:00\nUser:\tann\nDescription:\n\t\n\t\tindented\n";
    let change = client.change(1, &Execution::exited(output, Some(0))).unwrap();
    assert_eq!(change.description(), "\n\tindented");
}

#[test]
fn a_draft_takes_line_after_line() {
    let mut draft = ChangeDraft::new();
    let line = |text: &str| -> Vec<char> { text.chars().collect() };
    assert_eq!(draft.read_line(&line("Change:\t5")), Ok(()));
    assert_eq!(draft.read_line(&line("Date:\t2018/03/04 05:06:07")), Ok(()));
    assert_eq!(draft.read_line(&line("User:\tbob")), Ok(()));
    assert_eq!(draft.read_line(&line("Description:")), Ok(()));
    assert_eq!(draft.read_line(&line("\ttext")), Ok(()));
    assert_eq!(draft.read_line(&line("Change:\t")), Err(PerforceError::ParsingChangeFailed));
    let change = draft.finish(5).unwrap();
    assert_eq!(change, Change::new(5, date(118, 2, 4, 5, 6, 7), "bob", "text"));
}

#[test]
fn a_draft_takes_a_date_or_its_error() {
    let mut draft = ChangeDraft::new();
    assert_eq!(draft.set_date(Ok(date(100, 0, 1, 0, 0, 0))), Ok(()));
    assert_eq!(
        draft.set_date(Err(time::ParseError::InvalidDay)),
        Err(PerforceError::DateParseError { message: "Invalid day.".to_string() })
    );
    assert_eq!(draft.read_line(&"Change:\t1".chars().collect()), Ok(()));
    assert_eq!(draft.read_line(&"User:\tu".chars().collect()), Ok(()));
    assert_eq!(draft.read_line(&"Description:".chars().collect()), Ok(()));
    assert_eq!(draft.finish(1), Ok(Change::new(1, date(100, 0, 1, 0, 0, 0), "u", "")));
}

#[test]
fn read_lines_reads_a_whole_description() {
    let draft = read_lines(&rows(&["Change:\t8", "Date:\t2018/03/04 05:06:07", "User:\tbob"]));
    assert_eq!(draft.unwrap().finish(8), Err(PerforceError::IncorrectChange { commit: 8 }));
    let failed = read_lines(&rows(&["Change:\t8", "Change:\teight", "Date:\tx"]));
    assert_eq!(failed.unwrap_err(), PerforceError::ParsingChangeFailed);
}

#[test]
fn short_lines_of_a_field_are_read_as_empty() {
    let client = logged_in();
    let output = "Change:\t1\nDate:\t2001/01/01 00:00:00\nUser:\nDescription:\n";
    let change = client.change(1, &Execution::exited(output, Some(0))).unwrap();
    assert_eq!(change.user(), "");
    assert_eq!(
        client.change(1, &Execution::exited("Date:\n", Some(0))),
        Err(PerforceError::DateParseError { message: "Invalid year.".to_string() })
    );
}
