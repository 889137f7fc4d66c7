#[test]
fn sshd_log_match() {
    let cases = [
        (
            "sshd[24019]: Failed keyboard-interactive/pam for invalid user admin from 192.254.79.89 port 2971 ssh2",
            "192.254.79.89",
        ),
        (
            "sshd[37405]: Failed keyboard-interactive/pam for root from 193.107.17.72 port 2436 ssh2",
            "193.107.17.72",
        ),
        ("sshd[89737]: Received disconnect from 103.41.124.25: 11:  [preauth]", "103.41.124.25"),
        ("sshd[92498]: Received disconnect from 8.254.73.28: 11: Bye Bye [preauth]", "8.254.73.28"),
        ("sshd[92736]: Invalid user postgres from 8.254.73.28", "8.254.73.28"),
        (
            "sshd[78190]: Failed keyboard-interactive/pam for invalid user admin from 2404:6800:4004:814::200e port 50534 ssh2",
            "2404:6800:4004:814::200e",
        ),
    ];

    for (event, addr) in &cases {
        assert_eq!(Some(addr.to_string()), irongate::matcher::matches(event));
    }
}

#[test]
fn sshd_log_nomatch() {
    let events = [
        "sshd[92368]: Did not receive identification string from 128.61.240.66",
        "sshd[92736]: input_userauth_request: invalid user postgres [preauth]",
        "sshd[56043]: Received disconnect from 128.61.240.66: 11: disconnected by user",
    ];

    for event in &events {
        assert_eq!(None, irongate::matcher::matches(event));
    }
}
