use tpacpi_install::install::reboot_job;
use tpacpi_install::schedule::{contains_line, register};
use tpacpi_install::text::chars_of;

fn held(table: &str, line: &str) -> bool {
    contains_line(&chars_of(table), &chars_of(line))
}

#[test]
fn chars_of_keeps_every_character() {
    assert_eq!(chars_of(""), Vec::<char>::new());
    assert_eq!(chars_of("a\u{e9}\n"), vec!['a', '\u{e9}', '\n']);
}

#[test]
fn register_appends_to_an_empty_table() {
    let out = register(String::new(), "@reboot /usr/bin/install --apply");
    assert_eq!(out, "\n@reboot /usr/bin/install --apply\n");
}

#[test]
fn register_appends_after_a_closed_table() {
    let table = "0 5 * * * /usr/bin/backup\n".to_string();
    let out = register(table, "@reboot /usr/bin/install --apply");
    assert_eq!(
        out,
        "0 5 * * * /usr/bin/backup\n\n@reboot /usr/bin/install --apply\n"
    );
}

#[test]
fn register_closes_an_open_last_line() {
    let out = register("MAILTO=root".to_string(), "@reboot /usr/bin/x --apply");
    assert_eq!(out, "MAILTO=root\n@reboot /usr/bin/x --apply\n");
}

#[test]
fn register_keeps_a_table_that_holds_the_line() {
    let table = "a\n@reboot /usr/bin/x --apply\nb\n".to_string();
    let out = register(table.clone(), "@reboot /usr/bin/x --apply");
    assert_eq!(out, table);
}

#[test]
fn register_twice_is_register_once() {
    let line = reboot_job("install");
    for table in ["", "a", "a\n", "a\r\nb", "\n\n", "x\r"] {
        let once = register(table.to_string(), &line);
        let twice = register(once.clone(), &line);
        assert_eq!(once, twice);
        assert_eq!(once.lines().filter(|l| *l == line).count(), 1);
    }
}

#[test]
fn register_wants_the_whole_line() {
    let table = "@reboot /usr/bin/x --apply now\n  @reboot /usr/bin/x --apply\n".to_string();
    let out = register(table.clone(), "@reboot /usr/bin/x --apply");
    assert_eq!(out, format!("{}\n@reboot /usr/bin/x --apply\n", table));
}

#[test]
fn contains_line_reads_line_endings() {
    assert!(!held("", ""));
    assert!(held("\n", ""));
    assert!(held("a\nb", "b"));
    assert!(held("a\nb\n", "b"));
    assert!(held("a\r\nb\r\n", "a"));
    assert!(held("a\r\nb\r\n", "b"));
    assert!(!held("a\r\nb\r\n", "a\r"));
    assert!(held("a\r", "a\r"));
    assert!(!held("a\r", "a"));
    assert!(held("a\r\r\n", "a\r"));
    assert!(!held("ab\n", "a"));
    assert!(!held("ab\n", "b"));
    assert!(!held("a\n", "a\n"));
}

#[test]
fn contains_line_agrees_with_the_standard_lines() {
    let tables = [
        "", "\n", "\r", "\r\n", "a", "a\n", "a\r", "a\r\n", "\na", "a\n\nb", "a\r\n\r\nb\r",
        "b\na\n", "a\rb\na", "\u{e9}\n\u{fffd}", "a\n\r",
    ];
    let words = ["", "a", "b", "a\r", "\r", "\u{e9}", "\u{fffd}", "a\rb"];
    for table in tables {
        for word in words {
            assert_eq!(
                held(table, word),
                table.lines().any(|l| l == word),
                "{:?} {:?}",
                table,
                word
            );
        }
    }
}

#[test]
fn reboot_job_names_the_installed_program() {
    assert_eq!(reboot_job("install"), "@reboot /usr/bin/install --apply");
    assert_eq!(reboot_job(""), "@reboot /usr/bin/ --apply");
}

#[test]
fn register_after_an_open_carriage_return() {
    let out = register("a\r".to_string(), "a");
    assert_eq!(out, "a\r\na\n");
    assert_eq!(out.lines().filter(|l| *l == "a").count(), 2);
}

#[test]
fn register_an_empty_line() {
    assert_eq!(register("a\n".to_string(), ""), "a\n\n\n");
    assert_eq!(register("a\n\nb".to_string(), ""), "a\n\nb");
}

#[test]
fn register_a_line_that_cannot_be_read_back() {
    let once = register("a\n".to_string(), "b\r");
    assert_eq!(once, "a\n\nb\r\n");
    let twice = register(once.clone(), "b\r");
    assert_eq!(twice, "a\n\nb\r\n\nb\r\n");
}
