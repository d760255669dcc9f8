use git_prompt_info::colors::{gray, red, teal, warn};
use git_prompt_info::state::PromptInfo;
use termcolor::{Buffer, Color};

#[test]
fn no_color_buffer_gets_plain_segment() {
    let mut info = PromptInfo::from_status(
        "# branch.oid abc123deadbeef\n# branch.head main\n1 .M N... file.txt\n",
    );
    info.fill_weird([false, true, false, false, false]);
    let mut buffer = Buffer::no_color();
    info.write_to(&mut buffer).unwrap();
    assert_eq!(buffer.as_slice(), b"on main!*");
}

#[test]
fn no_color_buffer_detached_clean() {
    let info = PromptInfo::from_status(
        "# branch.oid abc123deadbeef\n# branch.head (detached)\n",
    );
    let mut buffer = Buffer::no_color();
    info.write_to(&mut buffer).unwrap();
    assert_eq!(buffer.as_slice(), b"at abc123de");
}

#[test]
fn ansi_buffer_gets_escapes_around_texts() {
    let mut info =
        PromptInfo::from_status("# branch.oid abc123deadbeef\n# branch.head main\n");
    info.fill_weird([false; 5]);
    let mut buffer = Buffer::ansi();
    info.write_to(&mut buffer).unwrap();
    let written = String::from_utf8(buffer.as_slice().to_vec()).unwrap();
    assert!(written.contains("on "));
    assert!(written.contains("main"));
    assert!(written.contains("\x1b["));
    // The segment keeps its order: preposition before the shown token.
    let prep = written.find("on ").unwrap();
    let shown = written.rfind("main").unwrap();
    assert!(prep < shown);
}

#[test]
fn writing_appends_to_existing_content() {
    let info = PromptInfo::from_status("# branch.oid abc123deadbeef\n# branch.head main\n");
    let mut buffer = Buffer::no_color();
    let other = PromptInfo::from_status("# branch.head dev\n");
    other.write_to(&mut buffer).unwrap();
    info.write_to(&mut buffer).unwrap();
    assert_eq!(buffer.as_slice(), b"on devon main");
}

#[test]
fn colorized_segment_is_deterministic() {
    let mut info = PromptInfo::from_status(
        "# branch.oid abc123deadbeef\n# branch.head main\n1 .M N... a\n",
    );
    info.fill_weird([true, false, false, false, false]);
    let mut first = Buffer::ansi();
    let mut second = Buffer::ansi();
    info.write_to(&mut first).unwrap();
    info.write_to(&mut second).unwrap();
    assert_eq!(first.as_slice(), second.as_slice());
}

#[test]
fn palette_sets_the_fixed_foregrounds() {
    assert_eq!(gray().fg(), Some(&Color::Rgb(0x92, 0x83, 0x74)));
    assert_eq!(teal().fg(), Some(&Color::Rgb(0x42, 0x7b, 0x58)));
    assert_eq!(warn().fg(), Some(&Color::Rgb(0xd7, 0x99, 0x21)));
    assert_eq!(red().fg(), Some(&Color::Rgb(0xcc, 0x24, 0x1d)));
    assert!(gray().bg().is_none());
}
