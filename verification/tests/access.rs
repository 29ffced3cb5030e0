use markdown_files::access::{
    bytes_to_write, failure, list_outcome, read_outcome, write_outcome, AccessError, Operation,
};
use markdown_files::decode::EncodingGuess;
use markdown_files::listing::Entry;

fn error(operation: Operation, path: &str, cause: &str) -> AccessError {
    AccessError { operation, path: path.to_string(), cause: cause.to_string() }
}

#[test]
fn message_of_a_failed_read() {
    let e = error(Operation::Read, "/tmp/a.md", "No such file (os error 2)");
    assert_eq!(e.message(), "无法读取文件 '/tmp/a.md': No such file (os error 2)");
}

#[test]
fn message_of_a_failed_write() {
    let e = error(Operation::Write, "/ro/a.md", "Permission denied (os error 13)");
    assert_eq!(e.message(), "无法保存文件 '/ro/a.md': Permission denied (os error 13)");
}

#[test]
fn message_of_a_failed_listing() {
    let e = error(Operation::List, "/nowhere", "No such file (os error 2)");
    assert_eq!(e.message(), "无法读取目录 [/nowhere]: No such file (os error 2)");
}

#[test]
fn every_message_holds_path_and_cause() {
    for operation in [Operation::Read, Operation::Write, Operation::List] {
        let message = error(operation, "/a path/\u{4e2d}.md", "the cause").message();
        assert!(message.contains("/a path/\u{4e2d}.md"));
        assert!(message.contains("the cause"));
    }
}

#[test]
fn message_with_empty_path_and_cause() {
    assert_eq!(error(Operation::Read, "", "").message(), "无法读取文件 '': ");
    assert_eq!(error(Operation::List, "", "").message(), "无法读取目录 []: ");
}

#[test]
fn failure_keeps_its_parts() {
    assert_eq!(
        failure(Operation::Write, "p", "c".to_string()),
        error(Operation::Write, "p", "c")
    );
}

#[test]
fn a_file_that_was_read_is_decoded() {
    let out = read_outcome("/tmp/a.md", Ok(vec![0xEF, 0xBB, 0xBF, b'o', b'k']));
    let decoded = out.unwrap();
    assert_eq!(decoded.text, "ok");
    assert_eq!(decoded.encoding, EncodingGuess::Utf8);
}

#[test]
fn a_file_of_garbage_that_was_read_is_still_decoded() {
    let out = read_outcome("/tmp/a.md", Ok(vec![0xFF, 0xFF, 0xFF, 0x00]));
    assert!(out.is_ok());
}

#[test]
fn a_file_that_could_not_be_read_is_a_read_error() {
    let out = read_outcome("/tmp/none.md", Err("not found".to_string()));
    assert_eq!(out, Err(error(Operation::Read, "/tmp/none.md", "not found")));
    assert!(out.unwrap_err().message().contains("/tmp/none.md"));
}

#[test]
fn content_is_written_as_its_utf8_bytes() {
    assert_eq!(bytes_to_write("a\u{4e2d}\n"), vec![b'a', 0xE4, 0xB8, 0xAD, b'\n']);
    assert_eq!(bytes_to_write(""), Vec::<u8>::new());
    assert_eq!(bytes_to_write("\r\n"), vec![b'\r', b'\n']);
}

#[test]
fn what_was_written_reads_back() {
    let content = "# T\n\n\u{4e2d}\u{6587} and caf\u{e9}\n";
    let out = read_outcome("p", Ok(bytes_to_write(content)));
    assert_eq!(out.unwrap().text, content);
}

#[test]
fn a_write_that_went_through_is_ok() {
    assert_eq!(write_outcome("/tmp/a.md", Ok(())), Ok(()));
}

#[test]
fn a_write_that_failed_is_a_write_error() {
    let out = write_outcome("/ro/a.md", Err("denied".to_string()));
    assert_eq!(out, Err(error(Operation::Write, "/ro/a.md", "denied")));
}

#[test]
fn a_directory_that_was_scanned_is_listed() {
    let entries = vec![
        Entry { name: "b.md".to_string(), path: "/d/b.md".to_string(), is_dir: false },
        Entry { name: "A".to_string(), path: "/d/A".to_string(), is_dir: true },
        Entry { name: "c.txt".to_string(), path: "/d/c.txt".to_string(), is_dir: false },
    ];
    let nodes = list_outcome("/d", Ok(entries)).unwrap();
    assert_eq!(nodes.len(), 2);
    assert_eq!(nodes[0].path, "/d/A");
    assert_eq!(nodes[1].path, "/d/b.md");
}

#[test]
fn a_directory_that_could_not_be_scanned_is_a_list_error() {
    let out = list_outcome("/nowhere", Err("not found".to_string()));
    assert_eq!(out, Err(error(Operation::List, "/nowhere", "not found")));
    assert!(out.unwrap_err().message().contains("/nowhere"));
}
