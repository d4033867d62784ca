use pbr::multi::{MultiBar, WriteMsg};
use pbr::tty::{decimal_string, move_cursor_up};

fn msg(level: usize, text: &str) -> WriteMsg {
    WriteMsg { level, string: text.to_string() }
}

fn line(text: &str) -> String {
    format!("\r{}\n", text)
}

#[test]
fn cursor_up_escape_sequence() {
    assert_eq!(move_cursor_up(0), "\x1B[0A");
    assert_eq!(move_cursor_up(3), "\x1B[3A");
    assert_eq!(move_cursor_up(12), "\x1B[12A");
    assert_eq!(move_cursor_up(1000), "\x1B[1000A");
}

#[test]
fn decimal_of_largest_usize() {
    assert_eq!(decimal_string(usize::MAX), usize::MAX.to_string());
    assert_eq!(decimal_string(10), "10");
    assert_eq!(decimal_string(7), "7");
}

#[test]
fn new_coordinator_is_empty() {
    let mb = MultiBar::on(Vec::<u8>::new());
    assert_eq!(mb.len(), 0);
    assert_eq!(mb.clear(), "");
    assert!(mb.handle.is_empty());
}

#[test]
fn registration_assigns_increasing_slots() {
    let mut mb = MultiBar::on(());
    mb.println("header");
    let p1 = mb.create_bar(10);
    mb.println("separator");
    let p2 = mb.create_bar(20);
    let p3 = mb.create_bar(30);
    assert_eq!(p1.level(), 1);
    assert_eq!(p2.level(), 3);
    assert_eq!(p3.level(), 4);
    assert!(p1.level() < p2.level() && p2.level() < p3.level());
    assert_eq!(p2.total(), 20);
    assert_eq!(mb.len(), 5);
}

#[test]
fn later_bar_is_drawn_below() {
    let mut mb = MultiBar::on(());
    let p1 = mb.create_bar(1);
    let p2 = mb.create_bar(1);
    mb.redraw(p2.message("second".to_string()));
    let out = mb.redraw(p1.message("first".to_string()));
    assert_eq!(out, format!("\x1B[1A{}{}", line("first"), line("second")));
}

#[test]
fn pipe_tags_text_with_its_slot() {
    let mut mb = MultiBar::on(());
    mb.println("a");
    let p = mb.create_bar(5);
    let m = p.message("3/5".to_string());
    assert_eq!(m.level, 1);
    assert_eq!(m.string, "3/5");
}

#[test]
fn header_and_bar_three_passes() {
    let mut mb = MultiBar::on(());
    mb.println("Header");
    let bar = mb.create_bar(100);
    let out1 = mb.redraw(bar.message("0 / 100".to_string()));
    let out2 = mb.redraw(bar.message("50 / 100".to_string()));
    let out3 = mb.redraw(bar.message("100 / 100".to_string()));
    assert_eq!(out1, format!("{}{}", line("Header"), line("0 / 100")));
    assert_eq!(out2, format!("\x1B[2A{}{}", line("Header"), line("50 / 100")));
    assert_eq!(out3, format!("\x1B[2A{}{}", line("Header"), line("100 / 100")));
}

#[test]
fn empty_slots_are_not_drawn() {
    let mut mb = MultiBar::on(());
    let _p1 = mb.create_bar(1);
    mb.println("");
    let p3 = mb.create_bar(1);
    let out = mb.redraw(p3.message("only".to_string()));
    assert_eq!(out, line("only"));
    assert_eq!(mb.clear(), format!("\x1B[1A\r   \n\x1B[1A"));
}

#[test]
fn last_write_wins_per_slot() {
    let mut mb = MultiBar::on(());
    let a = mb.create_bar(1);
    let b = mb.create_bar(1);
    mb.redraw(a.message("a1".to_string()));
    mb.redraw(b.message("b1".to_string()));
    mb.redraw(a.message("a2".to_string()));
    mb.redraw(b.message("b2".to_string()));
    let out = mb.redraw(a.message("a3".to_string()));
    assert_eq!(out, format!("\x1B[2A{}{}", line("a3"), line("b2")));
}

#[test]
fn same_text_twice_draws_same_content() {
    let mut mb = MultiBar::on(());
    mb.println("top");
    let a = mb.create_bar(1);
    let first = mb.redraw(a.message("same".to_string()));
    let second = mb.redraw(a.message("same".to_string()));
    let third = mb.redraw(a.message("same".to_string()));
    assert_eq!(first, format!("{}{}", line("top"), line("same")));
    assert_eq!(second, format!("\x1B[2A{}{}", line("top"), line("same")));
    assert_eq!(second, third);
}

#[test]
fn closing_pass_clears_last_drawn_lines() {
    let mut mb = MultiBar::on(());
    mb.println("title");
    let a = mb.create_bar(1);
    mb.redraw(a.message("abc".to_string()));
    let blank = format!("\r{}\n", " ".repeat(4));
    assert_eq!(mb.clear(), format!("\x1B[2A{}{}\x1B[2A", blank, blank));
}

#[test]
fn two_bars_finished_out_of_order() {
    let mut mb = MultiBar::on(());
    let p1 = mb.create_bar(2);
    let p2 = mb.create_bar(2);
    mb.redraw(p1.message("1 / 2".to_string()));
    mb.redraw(p2.message("2 / 2 done".to_string()));
    let out = mb.redraw(p1.message("2 / 2 done".to_string()));
    assert_eq!(out, format!("\x1B[2A{}{}", line("2 / 2 done"), line("2 / 2 done")));
    let blank = format!("\r{}\n", " ".repeat(9));
    assert_eq!(mb.clear(), format!("\x1B[2A{}{}\x1B[2A", blank, blank));
}

#[test]
fn padding_uses_widest_line_seen() {
    let mut mb = MultiBar::on(());
    let long = mb.create_bar(1);
    let short = mb.create_bar(1);
    let wide = "x".repeat(80);
    mb.redraw(long.message(wide.clone()));
    mb.redraw(short.message("short".to_string()));
    let out = mb.redraw(long.message(String::new()));
    let pad = format!("\r\r{}\n", " ".repeat(79));
    assert_eq!(out, format!("\x1B[2A{}{}", line("short"), pad));
    let next = mb.redraw(short.message("s".to_string()));
    assert_eq!(next, format!("\x1B[2A{}", line("s")));
}

#[test]
fn width_counts_utf8_bytes() {
    let mut mb = MultiBar::on(());
    let a = mb.create_bar(1);
    mb.redraw(a.message("\u{e9}".to_string()));
    assert_eq!(mb.clear(), "\x1B[1A\r \n\x1B[1A");
}

#[test]
fn repeated_update_after_shrink_does_not_pad_again() {
    let mut mb = MultiBar::on(());
    let a = mb.create_bar(1);
    let b = mb.create_bar(1);
    mb.redraw(a.message("aaaa".to_string()));
    mb.redraw(b.message("bb".to_string()));
    let shrink = mb.redraw(a.message(String::new()));
    assert_eq!(shrink, format!("\x1B[2A{}\r\r   \n", line("bb")));
    let again = mb.redraw(a.message(String::new()));
    assert_eq!(again, format!("\x1B[2A{}", line("bb")));
    let third = mb.redraw(a.message(String::new()));
    assert_eq!(third, format!("\x1B[1A{}", line("bb")));
}
