use tidysync::lockfile::{parse_pid, pid_text, refusal_message};

#[test]
fn records_the_holding_pid_so_it_reads_back() {
    for pid in [0u32, 7, 10, 4321, u32::MAX] {
        let written = pid_text(pid);
        assert_eq!(written, pid.to_string());
        assert_eq!(parse_pid(&written), Some(pid));
    }
}

#[test]
fn reads_the_pid_like_str_parse() {
    for text in ["42", " 42\n", "+42", "++42", "-42", "", "+", "4294967295", "4294967296",
        "0042", "4 2", "x", "\u{3000}17\u{85}", "99999999999999999999"] {
        assert_eq!(parse_pid(text), text.trim().parse::<u32>().ok(), "{text:?}");
    }
}

#[test]
fn refusal_names_the_holder() {
    let with_pid = refusal_message(Some(1234), "/state/tidysync.lock");
    assert_eq!(
        with_pid,
        "another tidysync is already watching (pid 1234); stop it first or let it keep running"
    );
    assert!(with_pid.contains("already watching"));
    let without = refusal_message(None, "/state/tidysync.lock");
    assert_eq!(without, "another tidysync is already watching (lock held on /state/tidysync.lock)");
}
