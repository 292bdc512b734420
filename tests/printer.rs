use xh_printer::{Buffer, BufferKind, Printer};

fn run_cmd(download: bool, output: Option<String>, is_stdout_tty: bool) -> Printer {
    let buffer = Buffer::new(download, &output, is_stdout_tty);
    Printer::new(None, None, false, buffer)
}

fn temp_path(filename: &str) -> String {
    format!("/tmp/{}", filename)
}

#[test]
fn test_1() {
    let p = run_cmd(false, None, true);
    assert_eq!(p.color(), true);
    assert!(matches!(p.buffer().kind(), BufferKind::Stdout));
}

#[test]
fn test_2() {
    let p = run_cmd(false, None, false);
    assert_eq!(p.color(), false);
    assert!(matches!(p.buffer().kind(), BufferKind::Redirect));
}

#[test]
fn test_3() {
    let output = temp_path("temp3");
    let p = run_cmd(false, Some(output), true);
    assert_eq!(p.color(), false);
    assert!(matches!(p.buffer().kind(), BufferKind::File));
}

#[test]
fn test_4() {
    let output = temp_path("temp4");
    let p = run_cmd(false, Some(output), false);
    assert_eq!(p.color(), false);
    assert!(matches!(p.buffer().kind(), BufferKind::File));
}

#[test]
fn test_5() {
    let p = run_cmd(true, None, true);
    assert_eq!(p.color(), true);
    assert!(matches!(p.buffer().kind(), BufferKind::Stderr));
}

#[test]
fn test_6() {
    let p = run_cmd(true, None, false);
    assert_eq!(p.color(), true);
    assert!(matches!(p.buffer().kind(), BufferKind::Stderr));
}

#[test]
fn test_7() {
    let output = temp_path("temp7");
    let p = run_cmd(true, Some(output), true);
    assert_eq!(p.color(), true);
    assert!(matches!(p.buffer().kind(), BufferKind::Stderr));
}

#[test]
fn test_8() {
    let output = temp_path("temp8");
    let p = run_cmd(true, Some(output), false);
    assert_eq!(p.color(), true);
    assert!(matches!(p.buffer().kind(), BufferKind::Stderr));
}
