use nethint_bpf::command::{
    get_command_output, get_command_output_string, get_command_str, push_decimal, CommandError,
    Exit, Failure, Output,
};

fn args(words: &[&str]) -> Vec<String> {
    words.iter().map(|w| w.to_string()).collect()
}

fn output(status: Exit, stdout: &[u8]) -> Output {
    Output { status, stdout: stdout.to_vec() }
}

#[test]
fn command_str_joins_with_single_spaces() {
    assert_eq!(get_command_str("tc", &args(&[])), "tc");
    assert_eq!(get_command_str("tc", &args(&["qdisc"])), "tc qdisc");
    assert_eq!(
        get_command_str("tc", &args(&["qdisc", "add", "dev", "eth0", "clsact"])),
        "tc qdisc add dev eth0 clsact"
    );
    assert_eq!(get_command_str("sh", &args(&["-c", "a b", ""])), "sh -c a b ");
}

#[test]
fn decimal_of_every_sign() {
    for n in [0, 1, 9, 10, 11, 99, 100, 255, 1000, 65535, i32::MAX, -1, -9, -10, -255, i32::MIN] {
        let mut text = String::from("n=");
        push_decimal(&mut text, n);
        assert_eq!(text, format!("n={}", n));
    }
}

#[test]
fn exit_code_zero_gives_the_output() {
    assert_eq!(get_command_output("true", output(Exit::Code(0), b"")).unwrap(), b"".to_vec());
    assert_eq!(
        get_command_output("echo hi", output(Exit::Code(0), b"hi\n")).unwrap(),
        b"hi\n".to_vec()
    );
    assert_eq!(
        get_command_output("x", output(Exit::Code(0), &[0xff, 0x00])).unwrap(),
        vec![0xff, 0x00]
    );
}

#[test]
fn other_exit_codes_are_errors_that_name_the_command() {
    let e = get_command_output("tc qdisc add dev eth0 clsact", output(Exit::Code(2), b"out"))
        .unwrap_err();
    assert_eq!(e.failure, Failure::Exited(2));
    assert_eq!(e.detail, "tc qdisc add dev eth0 clsact");
    assert_eq!(e.message(), "Exited with code: 2, cmd: tc qdisc add dev eth0 clsact");
    let e = get_command_output("false", output(Exit::Code(-1), b"")).unwrap_err();
    assert_eq!(e.message(), "Exited with code: -1, cmd: false");
    let e = get_command_output("x y", output(Exit::Code(255), b"")).unwrap_err();
    assert_eq!(e.message(), "Exited with code: 255, cmd: x y");
}

#[test]
fn signals_are_errors_that_name_the_command() {
    let e = get_command_output("sleep 100", output(Exit::Signal(9), b"")).unwrap_err();
    assert_eq!(e.failure, Failure::Signaled(9));
    assert_eq!(e.message(), "Process terminated by signal: 9, cmd: sleep 100");
    let e = get_command_output("sleep 100", output(Exit::Signal(15), b"partial")).unwrap_err();
    assert_eq!(e.message(), "Process terminated by signal: 15, cmd: sleep 100");
}

#[test]
fn output_string_decodes_utf8() {
    assert_eq!(get_command_output_string("echo", output(Exit::Code(0), b"hello\n")).unwrap(), "hello\n");
    assert_eq!(
        get_command_output_string("echo", output(Exit::Code(0), "gr\u{fc}\u{df}e \u{2603}".as_bytes()))
            .unwrap(),
        "gr\u{fc}\u{df}e \u{2603}"
    );
    assert_eq!(get_command_output_string("echo", output(Exit::Code(0), b"")).unwrap(), "");
}

#[test]
fn output_string_refuses_what_is_no_utf8() {
    let bad = [b'a', 0xff, b'b'];
    let e = get_command_output_string("cat f", output(Exit::Code(0), &bad)).unwrap_err();
    assert_eq!(e.failure, Failure::NotUtf8);
    assert_eq!(e.detail, String::from_utf8(bad.to_vec()).unwrap_err().to_string());
    assert_eq!(e.message(), e.detail);
    let e = get_command_output_string("cat f", output(Exit::Code(0), &[0xc3])).unwrap_err();
    assert_eq!(e.failure, Failure::NotUtf8);
}

#[test]
fn output_string_reports_the_failed_process_first() {
    let e = get_command_output_string("cat f", output(Exit::Code(1), &[0xff])).unwrap_err();
    assert_eq!(e.failure, Failure::Exited(1));
    assert_eq!(e.message(), "Exited with code: 1, cmd: cat f");
    let e = get_command_output_string("cat f", output(Exit::Signal(2), b"ok")).unwrap_err();
    assert_eq!(e.failure, Failure::Signaled(2));
}

#[test]
fn message_of_a_hand_made_error() {
    let e = CommandError { failure: Failure::Exited(i32::MIN), detail: "a".to_string() };
    assert_eq!(e.message(), "Exited with code: -2147483648, cmd: a");
    let e = CommandError { failure: Failure::Signaled(0), detail: String::new() };
    assert_eq!(e.message(), "Process terminated by signal: 0, cmd: ");
}

#[test]
fn process_that_did_not_start_is_an_error() {
    let e = get_command_output("tc qdisc", output(Exit::NotStarted, b"")).unwrap_err();
    assert_eq!(e.failure, Failure::NotStarted);
    assert_eq!(e.detail, "tc qdisc");
    assert_eq!(e.message(), "Failed to start, cmd: tc qdisc");
    let e = get_command_output_string("x", output(Exit::NotStarted, b"text")).unwrap_err();
    assert_eq!(e.failure, Failure::NotStarted);
}
