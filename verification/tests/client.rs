use async_runtime::client;

fn count(args: &[&str]) -> Option<usize> {
    client::client_count(&args.iter().map(|arg| arg.to_string()).collect())
}

#[test]
fn one_argument_is_the_number_of_clients() {
    assert_eq!(count(&["client", "10"]), Some(10));
    assert_eq!(count(&["client", "0"]), Some(0));
    assert_eq!(count(&["client", "+7"]), Some(7));
    assert_eq!(count(&["client", "007"]), Some(7));
}

#[test]
fn other_numbers_of_arguments_are_refused() {
    assert_eq!(count(&[]), None);
    assert_eq!(count(&["client"]), None);
    assert_eq!(count(&["client", "1", "2"]), None);
}

#[test]
fn other_texts_are_refused() {
    for text in ["", "+", "-1", "1 ", " 1", "1_000", "ten", "++1", "1+", "\u{0661}", "0x10"] {
        assert_eq!(count(&["client", text]), None, "{:?}", text);
        assert!(text.parse::<usize>().is_err());
    }
}

#[test]
fn largest_count_fits_and_the_next_does_not() {
    let largest = usize::MAX.to_string();
    assert_eq!(count(&["client", &largest]), Some(usize::MAX));
    assert_eq!(count(&["client", "18446744073709551616"]), None);
    assert_eq!(count(&["client", "99999999999999999999999999"]), None);
}

#[test]
fn written_count_is_read_back() {
    for n in [0, 9, 10, 99, 100, 12345, usize::MAX - 1] {
        assert_eq!(count(&["client", &n.to_string()]), Some(n));
        assert_eq!(count(&["client", &format!("+{}", n)]), Some(n));
    }
}

#[test]
fn each_client_has_a_server_of_its_own() {
    assert_eq!(client::address(0), "127.0.0.1:3000");
    assert_eq!(client::address(9), "127.0.0.1:3009");
    assert_eq!(client::address(1000), "127.0.0.1:4000");
}

#[test]
fn requests_name_the_client() {
    assert_eq!(client::request(0), "hello from client 0\n");
    assert_eq!(client::request(120), "hello from client 120\n");
}

#[test]
fn usage_names_the_argument() {
    assert_eq!(client::USAGE, "Usage: cargo run -- <number_of_clients>");
    assert_eq!(client::MAX_CHANNELS, 1000);
}
