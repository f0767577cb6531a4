use p4tohg::date::DateTime;
use p4tohg::mercurial::client::check_ending;
use p4tohg::mercurial::client::LARGE_FILE_SIZE;
use p4tohg::mercurial::client::RENAME_SIMILARITY;
use p4tohg::mercurial::Candidate;
use p4tohg::mercurial::MercurialClient;
use p4tohg::mercurial::MercurialError;
use p4tohg::process::Execution;
use p4tohg::process::Invocation;

fn client() -> MercurialClient {
    MercurialClient::new("hg", "/repo")
}

fn run(arguments: &[&str], capture: bool) -> Invocation {
    Invocation {
        command: "hg".to_string(),
        work_dir: "/repo".to_string(),
        environment: vec![],
        arguments: arguments.iter().map(|word| word.to_string()).collect(),
        prompt: None,
        capture,
        lenient: false,
    }
}

fn date(year: i32, month: i32, day: i32, hour: i32, minute: i32, second: i32) -> DateTime {
    DateTime {
        second,
        minute,
        hour,
        day,
        month,
        year,
        weekday: 0,
        yearday: 0,
        isdst: 0,
        utcoff: 0,
        nanosecond: 0,
    }
}

#[test]
fn the_client_knows_its_working_copy() {
    assert_eq!(client().work_dir(), "/repo");
}

#[test]
fn commands_are_what_the_repository_program_reads() {
    let client = client();
    assert_eq!(client.update_command("main"), run(&["update", "--rev", "main"], false));
    assert_eq!(
        client.last_commit_command("main"),
        run(&["log", "--rev", "main", "--template", "{desc|firstline}"], true)
    );
    assert_eq!(client.addremove_command(80), run(&["addremove", "--similarity", "80"], false));
    assert_eq!(client.addremove_command(0), run(&["addremove", "--similarity", "0"], false));
    assert_eq!(client.addremove_command(255), run(&["addremove", "--similarity", "255"], false));
    assert_eq!(
        client.add_large_command("bin/big file.iso"),
        run(&["add", "--large", "bin/big file.iso"], false)
    );
    assert_eq!(
        client.get_large_files_command(),
        run(&["status", "--no-status", "--unknown"], true)
    );
    assert_eq!(client.status_command(), run(&["status", "--no-status"], true));
    assert_eq!(client.push_command(), run(&["push"], false));
}

#[test]
fn the_thresholds_are_ten_mebibytes_and_eighty_percent() {
    assert_eq!(LARGE_FILE_SIZE, 10 * 1024 * 1024);
    assert_eq!(RENAME_SIMILARITY, 80);
}

#[test]
fn commit_command_writes_the_date_for_the_repository() {
    let client = client();
    assert_eq!(
        client.commit_command("change #10\ntext", &date(118, 2, 4, 5, 6, 7), "bob"),
        Ok(run(
            &[
                "commit",
                "--message",
                "change #10\ntext",
                "--date",
                "2018-03-04 05:06:07",
                "--user",
                "bob",
            ],
            false
        ))
    );
    let written = client.commit_command("m", &date(-1900, 0, 1, 0, 0, 0), "u").unwrap();
    assert_eq!(written.arguments[4], "0-01-01 00:00:00");
    let written = client.commit_command("m", &date(99, 11, 31, 23, 59, 60), "u").unwrap();
    assert_eq!(written.arguments[4], "1999-12-31 23:59:60");
}

#[test]
fn commit_command_takes_the_date_as_it_was_written() {
    let client = client();
    assert_eq!(
        client.commit_command_at("m", Ok("tomorrow".to_string()), "u"),
        Ok(run(&["commit", "--message", "m", "--date", "tomorrow", "--user", "u"], false))
    );
    assert_eq!(
        client.commit_command_at("m", Err(time::ParseError::InvalidDay), "u"),
        Err(MercurialError::DateFormatError { message: "Invalid day.".to_string() })
    );
}

#[test]
fn commit_command_fails_on_a_date_that_cannot_be_written() {
    let client = client();
    assert_eq!(
        client.commit_command("m", &date(118, 12, 4, 5, 6, 7), "u"),
        Err(MercurialError::DateFormatError { message: "Invalid month.".to_string() })
    );
    assert_eq!(
        client.commit_command("m", &date(118, -1, 4, 5, 6, 7), "u"),
        Err(MercurialError::DateFormatError { message: "Invalid month.".to_string() })
    );
    let mut odd = date(118, 2, 4, 5, 6, 7);
    odd.weekday = 7;
    assert_eq!(
        client.commit_command("m", &odd, "u"),
        Err(MercurialError::DateFormatError { message: "Invalid day of the week.".to_string() })
    );
    odd.month = 12;
    assert_eq!(
        client.commit_command("m", &odd, "u"),
        Err(MercurialError::DateFormatError { message: "Invalid day.".to_string() })
    );
}

#[test]
fn commit_command_takes_the_last_year_that_fits() {
    let client = client();
    let written = client.commit_command("m", &date(2147481747, 0, 1, 0, 0, 0), "u").unwrap();
    assert_eq!(written.arguments[4], "2147483647-01-01 00:00:00");
    assert_eq!(
        client.commit_command("m", &date(2147481748, 0, 1, 0, 0, 0), "u"),
        Err(MercurialError::DateFormatError { message: "Invalid year.".to_string() })
    );
    assert_eq!(
        client.commit_command("m", &date(i32::MAX, 0, 1, 0, 0, 0), "u"),
        Err(MercurialError::DateFormatError { message: "Invalid year.".to_string() })
    );
}

#[test]
fn plain_operations_give_the_error_of_the_run() {
    let client = client();
    let fine = Execution::exited("", Some(0));
    assert_eq!(client.update(&fine), Ok(()));
    assert_eq!(client.addremove(&fine), Ok(()));
    assert_eq!(client.add_large(&fine), Ok(()));
    assert_eq!(client.commit(&fine), Ok(()));
    assert_eq!(client.push(&fine), Ok(()));
    let failed = Execution::exited("", Some(255));
    let error = MercurialError::ExitError { exit_code: Some(255) };
    assert_eq!(client.update(&failed), Err(MercurialError::exit_error(Some(255))));
    assert_eq!(client.addremove(&failed).unwrap_err(), error);
    assert_eq!(client.add_large(&failed).unwrap_err(), error);
    assert_eq!(client.commit(&failed).unwrap_err(), error);
    assert_eq!(client.push(&failed).unwrap_err(), error);
    assert_eq!(
        client.push(&Execution::not_started("no hg")),
        Err(MercurialError::ExecutionError { message: "no hg".to_string() })
    );
    assert_eq!(
        client.commit(&Execution::unfinished("", "lost")),
        Err(MercurialError::IoError { message: "lost".to_string() })
    );
    assert_eq!(
        client.update(&Execution::interrupted("", "reset")),
        Err(MercurialError::CommunicationError { message: "reset".to_string() })
    );
    assert_eq!(
        client.update(&Execution::exited("", None)),
        Err(MercurialError::ExitError { exit_code: None })
    );
    assert_eq!(check_ending(&fine), Ok(()));
    assert_eq!(check_ending(&failed), Err(MercurialError::ExitError { exit_code: Some(255) }));
}

#[test]
fn last_commit_reads_the_marker() {
    let client = client();
    assert_eq!(client.last_commit(&Execution::exited("change #41", Some(0))), Ok(Some(41)));
    assert_eq!(client.last_commit(&Execution::exited("change #41\n", Some(0))), Ok(Some(41)));
    assert_eq!(client.last_commit(&Execution::exited("", Some(0))), Ok(None));
    assert_eq!(client.last_commit(&Execution::exited("imported by hand", Some(0))), Ok(None));
}

#[test]
fn last_commit_fails_on_a_marker_without_a_number() {
    let client = client();
    assert_eq!(
        client.last_commit(&Execution::exited("change #", Some(0))),
        Err(MercurialError::ChangeParseError {
            message: "cannot parse integer from empty string".to_string()
        })
    );
    assert_eq!(
        client.last_commit(&Execution::exited("change #5000000000", Some(0))),
        Err(MercurialError::ChangeParseError {
            message: "number too large to fit in target type".to_string()
        })
    );
    assert_eq!(
        client.last_commit(&Execution::exited("change #x", Some(1))),
        Err(MercurialError::ChangeParseError {
            message: "cannot parse integer from empty string".to_string()
        })
    );
}

#[test]
fn last_commit_gives_the_error_of_the_run() {
    let client = client();
    assert_eq!(
        client.last_commit(&Execution::exited("change #41", Some(1))),
        Err(MercurialError::ExitError { exit_code: Some(1) })
    );
    assert_eq!(
        client.last_commit(&Execution::exited("", Some(255))),
        Err(MercurialError::ExitError { exit_code: Some(255) })
    );
    assert_eq!(
        client.last_commit(&Execution::interrupted("change #", "reset")),
        Err(MercurialError::CommunicationError { message: "reset".to_string() })
    );
    assert_eq!(
        client.last_commit(&Execution::unfinished("change #41", "lost")),
        Err(MercurialError::IoError { message: "lost".to_string() })
    );
    assert_eq!(
        client.last_commit(&Execution::not_started("no hg")),
        Err(MercurialError::ExecutionError { message: "no hg".to_string() })
    );
}

#[test]
fn status_names_one_file_to_a_line() {
    let client = client();
    assert_eq!(
        client.status(&Execution::exited("a.txt\ndir/b c.txt\r\n\u{e9}.bin\n", Some(0))),
        Ok(vec!["a.txt".to_string(), "dir/b c.txt".to_string(), "\u{e9}.bin".to_string()])
    );
    assert_eq!(client.status(&Execution::exited("", Some(0))), Ok(vec![]));
    assert_eq!(
        client.status(&Execution::exited("a.txt\n", Some(1))),
        Err(MercurialError::ExitError { exit_code: Some(1) })
    );
    assert_eq!(
        client.status(&Execution::interrupted("a.txt\n", "reset")),
        Err(MercurialError::CommunicationError { message: "reset".to_string() })
    );
    assert_eq!(
        client.status(&Execution::not_started("no hg")),
        Err(MercurialError::ExecutionError { message: "no hg".to_string() })
    );
}

#[test]
fn a_file_of_the_threshold_is_large_and_one_byte_less_is_not() {
    let client = client();
    let candidates = vec![
        Candidate::sized("below", LARGE_FILE_SIZE - 1),
        Candidate::sized("at", LARGE_FILE_SIZE),
        Candidate::sized("above", LARGE_FILE_SIZE + 1),
    ];
    assert_eq!(
        client.get_large_files(LARGE_FILE_SIZE, &candidates),
        Ok(vec!["at".to_string(), "above".to_string()])
    );
}

#[test]
fn large_files_keep_their_order() {
    let client = client();
    let candidates = vec![
        Candidate::sized("c", 30),
        Candidate::sized("a", 5),
        Candidate::sized("b", 10),
        Candidate::sized("c", 9),
        Candidate::sized("d", u64::MAX),
    ];
    assert_eq!(
        client.get_large_files(10, &candidates),
        Ok(vec!["c".to_string(), "b".to_string(), "d".to_string()])
    );
    assert_eq!(client.get_large_files(0, &vec![Candidate::sized("e", 0)]), Ok(vec!["e".to_string()]));
    assert_eq!(client.get_large_files(1, &vec![Candidate::sized("e", 0)]), Ok(vec![]));
    assert_eq!(client.get_large_files(10, &vec![]), Ok(vec![]));
}

#[test]
fn the_first_file_without_a_size_fails_the_search() {
    let client = client();
    let candidates = vec![
        Candidate::sized("a", 50),
        Candidate::unreadable("b", "not found"),
        Candidate::unreadable("c", "denied"),
    ];
    assert_eq!(
        client.get_large_files(10, &candidates),
        Err(MercurialError::ReadMetadataError { message: "not found".to_string() })
    );
    assert_eq!(
        Candidate::unreadable("b", "not found"),
        Candidate { path: "b".to_string(), size: Err("not found".to_string()) }
    );
}
