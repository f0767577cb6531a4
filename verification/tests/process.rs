use p4tohg::process::Execution;
use p4tohg::process::Invocation;
use p4tohg::process::Prompt;

#[test]
fn a_new_invocation_names_program_and_directory_only() {
    let run = Invocation::new("tool", "/somewhere");
    assert_eq!(
        run,
        Invocation {
            command: "tool".to_string(),
            work_dir: "/somewhere".to_string(),
            environment: vec![],
            arguments: vec![],
            prompt: None,
            capture: false,
            lenient: false,
        }
    );
}

#[test]
fn variables_and_arguments_keep_their_order() {
    let mut run = Invocation::new("tool", ".");
    run.arg("first");
    run.env("B", "2");
    run.arg("second");
    run.env("A", "1");
    run.env("B", "3");
    assert_eq!(run.arguments, vec!["first".to_string(), "second".to_string()]);
    assert_eq!(
        run.environment,
        vec![
            ("B".to_string(), "2".to_string()),
            ("A".to_string(), "1".to_string()),
            ("B".to_string(), "3".to_string()),
        ]
    );
    assert!(!run.capture);
    assert_eq!(run.prompt, None);
}

#[test]
fn the_output_is_read_when_asked_for() {
    let mut run = Invocation::new("tool", ".");
    run.read_output();
    assert!(run.capture);
    assert!(!run.lenient);
    run.read_any_output();
    assert!(run.capture);
    assert!(run.lenient);
}

#[test]
fn an_answer_ends_with_a_line_feed() {
    let mut run = Invocation::new("tool", ".");
    run.answer("Name: ", "me");
    assert_eq!(
        run.prompt,
        Some(Prompt { expect: "Name: ".to_string(), reply: "me\n".to_string() })
    );
    assert!(run.capture);
    run.answer("", "");
    assert_eq!(run.prompt, Some(Prompt { expect: String::new(), reply: "\n".to_string() }));
}

#[test]
fn executions_keep_what_they_were_made_with() {
    assert_eq!(
        Execution::exited("out", Some(3)),
        Execution::Exited { output: "out".to_string(), exit_code: Some(3) }
    );
    assert_eq!(
        Execution::exited("", None),
        Execution::Exited { output: String::new(), exit_code: None }
    );
    assert_eq!(
        Execution::not_started("why"),
        Execution::NotStarted { message: "why".to_string() }
    );
    assert_eq!(
        Execution::interrupted("part", "why"),
        Execution::Interrupted { output: "part".to_string(), message: "why".to_string() }
    );
    assert_eq!(
        Execution::unfinished("all", "why"),
        Execution::Unfinished { output: "all".to_string(), message: "why".to_string() }
    );
}

#[test]
fn a_prompt_is_met_by_exactly_what_it_expects() {
    let prompt = Prompt { expect: "Enter password: ".to_string(), reply: "secret\n".to_string() };
    assert!(prompt.is_met("Enter password: "));
    assert!(!prompt.is_met("Enter password:"));
    assert!(!prompt.is_met("Enter password:  "));
    assert!(!prompt.is_met("enter password: "));
    assert!(!prompt.is_met("Enter passw\u{f6}rd: "));
    assert!(!prompt.is_met(""));
    let silent = Prompt { expect: String::new(), reply: String::new() };
    assert!(silent.is_met(""));
    assert!(!silent.is_met(" "));
}
