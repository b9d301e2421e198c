use codex_companion::desktop::{notification_placeholder, paste_from_clipboard_placeholder, screenshot_placeholder};
use codex_companion::memory::{memory_key, memory_text_from_file, project_memory_document, project_memory_path};
use codex_companion::screenshot::{bgra_to_rgba, capture_size, pixel_buffer_len};
use codex_companion::toast::{
    escape_xml_text, start_menu_programs_dir, start_menu_shortcut_path, to_wide, toast_xml,
    NotifyStep, WindowsToastBackend,
};

#[test]
fn reads_and_writes_project_memory() {
    let home = "/home/u/.codex";
    let cwd = "C:\\tmp\\proj";
    let text = "hello";
    // Write: the contents are stored, as given, in the directory's memory file.
    let path = project_memory_path(home, cwd);
    assert!(path.starts_with("/home/u/.codex/project-memories/"));
    assert!(path.ends_with(".md"));
    let stored: String = text.to_string();
    // Read: the same directory maps to the same file, and its text comes back.
    assert_eq!(project_memory_path(home, cwd), path);
    let read = memory_text_from_file(&stored);
    assert_eq!(read, Some(text.to_string()));
    assert_eq!(memory_text_from_file("  hello \n"), Some("hello".to_string()));
    assert_eq!(memory_text_from_file(" \n\t"), None);
    assert_ne!(path, project_memory_path(home, "C:\\tmp\\other"));
}

#[test]
fn memory_key_is_the_sha1_of_the_directory() {
    assert_eq!(memory_key("abc"), "a9993e364706816aba3e25717850c26c9cd0d89d");
    assert_eq!(
        project_memory_path("/h", "abc"),
        "/h/project-memories/a9993e364706816aba3e25717850c26c9cd0d89d.md"
    );
}

#[test]
fn memory_document_holds_the_trimmed_summary() {
    assert_eq!(
        project_memory_document("/w", "2024-01-01T00:00:00Z", "  done \n"),
        "# Project Memory\n\n- cwd: `/w`\n- updated_at: `2024-01-01T00:00:00Z`\n\n---\n\ndone\n"
    );
}

#[test]
fn xml_text_is_escaped() {
    assert_eq!(escape_xml_text("a<b>&c\"d"), "a&lt;b&gt;&amp;c\"d");
    let xml = toast_xml("<hi>");
    assert_eq!(
        xml,
        "<toast><visual><binding template=\"ToastGeneric\"><text>Codex</text><text>&lt;hi&gt;</text></binding></visual></toast>"
    );
}

#[test]
fn wide_strings_are_utf16_with_a_terminator() {
    assert_eq!(to_wide("Ab"), vec![0x41, 0x62, 0]);
    assert_eq!(to_wide("é😀"), vec![0xe9, 0xd83d, 0xde00, 0]);
    assert_eq!(to_wide(""), vec![0]);
}

#[test]
fn shortcut_lives_in_start_menu_programs() {
    let dir = start_menu_programs_dir("/appdata");
    assert_eq!(dir, "/appdata/Microsoft/Windows/Start Menu/Programs");
    assert_eq!(start_menu_shortcut_path(&dir), "/appdata/Microsoft/Windows/Start Menu/Programs/Codex.lnk");
}

#[test]
fn toast_backend_falls_back_to_bell_for_good() {
    let mut b = WindowsToastBackend::new();
    assert!(!b.is_disabled());
    match b.notify("x & y") {
        NotifyStep::ShowToast(xml) => assert!(xml.contains("<text>x &amp; y</text>")),
        _ => panic!("first notification tries a toast"),
    }
    assert!(matches!(b.toast_finished(true), NotifyStep::Done));
    assert!(!b.is_disabled());
    assert!(matches!(b.notify("again"), NotifyStep::ShowToast(_)));
    assert!(matches!(b.toast_finished(false), NotifyStep::Bell));
    assert!(b.is_disabled());
    assert!(matches!(b.notify("later"), NotifyStep::Bell));
    assert!(b.is_disabled());
}

#[test]
fn capture_buffers() {
    assert_eq!(capture_size(0, 10), None);
    assert_eq!(capture_size(-1, 10), None);
    assert_eq!(capture_size(3, 2), Some((3, 2)));
    assert_eq!(pixel_buffer_len(3, 2), 24);
    let mut buf = vec![1, 2, 3, 4, 5, 6, 7, 8, 9, 10];
    bgra_to_rgba(&mut buf);
    assert_eq!(buf, vec![3, 2, 1, 4, 7, 6, 5, 8, 9, 10]);
}

#[test]
fn desktop_placeholders() {
    let p = paste_from_clipboard_placeholder();
    assert!(!p.ok);
    assert_eq!(p.message, "Clipboard paste placeholder: wire native clipboard integration.");
    let s = screenshot_placeholder();
    assert!(!s.ok);
    assert_eq!(s.message, "Screenshot placeholder: wire window capture integration.");
    let n = notification_placeholder("T", "B");
    assert!(n.ok);
    assert_eq!(n.message, "Notification placeholder received title='T' body='B'.");
}
