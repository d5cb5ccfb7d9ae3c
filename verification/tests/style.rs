use lscolors::LsColors;
use status_deco::decorate::process_line;
use status_deco::style::{join_texts, lscolor_path, paint_components, usable_style, AnsiStyle, StyledComponent};

fn style(open: &str, close: &str) -> AnsiStyle {
    AnsiStyle { open: open.to_string(), close: close.to_string() }
}

fn part(text: &str, escapes: Option<(&str, &str)>) -> StyledComponent {
    StyledComponent { text: text.to_string(), style: escapes.map(|(open, close)| style(open, close)) }
}

#[test]
fn components_are_painted_one_after_the_other() {
    let parts = vec![
        part("src/", Some(("\x1b[1;34m", "\x1b[0m"))),
        part("deep/", Some(("\x1b[1;34m", "\x1b[0m"))),
        part("main.rs", Some(("\x1b[32m", "\x1b[0m"))),
    ];
    assert_eq!(
        paint_components(&parts),
        "\x1b[1;34msrc/\x1b[0m\x1b[1;34mdeep/\x1b[0m\x1b[32mmain.rs\x1b[0m"
    );
}

#[test]
fn component_without_style_is_in_the_flat_colour() {
    let parts = vec![part("src/", Some(("\x1b[1;34m", "\x1b[0m"))), part("notes", None)];
    assert_eq!(paint_components(&parts), "\x1b[1;34msrc/\x1b[0m\x1b[39mnotes\x1b[0m");
    assert_eq!(paint_components(&vec![part("notes", None)]), "\x1b[39mnotes\x1b[0m");
}

#[test]
fn component_with_a_style_that_paints_nothing_is_in_the_flat_colour() {
    assert_eq!(paint_components(&vec![part("notes", Some(("", "")))]), "\x1b[39mnotes\x1b[0m");
}

#[test]
fn component_with_an_unusable_style_is_in_the_flat_colour() {
    for (open, close) in [
        ("\x1b[31m", ""),
        ("\x1b[31m", "\x1b[39m"),
        ("", "\x1b[0m"),
        ("\x1b[0m", "\x1b[0m"),
        ("\x1b[31", "\x1b[0m"),
        ("[31m", "\x1b[0m"),
        ("\x1b[3x1m", "\x1b[0m"),
        ("\x1b[31m\x1b[1m", "\x1b[0m"),
        ("\x1b]8;;m", "\x1b[0m"),
        ("bold", "plain"),
    ] {
        assert!(!usable_style(&style(open, close)), "on {:?} {:?}", open, close);
        assert_eq!(
            paint_components(&vec![part("notes", Some((open, close)))]),
            "\x1b[39mnotes\x1b[0m",
            "on {:?} {:?}",
            open,
            close
        );
    }
}

#[test]
fn usable_styles() {
    for open in ["\x1b[31m", "\x1b[1;31m", "\x1b[m", "\x1b[38;5;12m", "\x1b[48;2;1;2;3;38;2;4;5;6m", "\x1b[00m", "\x1b[;m"] {
        assert!(usable_style(&style(open, "\x1b[0m")), "on {:?}", open);
        assert_eq!(
            paint_components(&vec![part("notes", Some((open, "\x1b[0m")))]),
            format!("{}notes\x1b[0m", open)
        );
    }
}

#[test]
fn texts_are_joined_in_order() {
    assert_eq!(join_texts(&Vec::new()), "");
    assert_eq!(join_texts(&vec![part("src/", None), part("deep/", Some(("x", "y"))), part("main.rs", None)]), "src/deep/main.rs");
}

#[test]
fn no_components_give_no_text() {
    assert_eq!(paint_components(&Vec::new()), "");
}

#[test]
fn path_without_ruleset_is_flat() {
    assert_eq!(lscolor_path(None, "no_such_dir_zz/file.txt"), "\x1b[39mno_such_dir_zz/file.txt\x1b[0m");
    assert_eq!(lscolor_path(None, ""), "\x1b[39m\x1b[0m");
}

#[test]
fn ruleset_styles_by_suffix() {
    let rules = LsColors::from_string("*.txt=01;31:*.md=04;36");
    assert_eq!(lscolor_path(Some(&rules), "no_such_file_zz.txt"), "\x1b[1;31mno_such_file_zz.txt\x1b[0m");
    assert_eq!(lscolor_path(Some(&rules), "no_such_file_zz.md"), "\x1b[4;36mno_such_file_zz.md\x1b[0m");
    assert_eq!(lscolor_path(Some(&rules), "no_such_file_zz.rs"), "\x1b[39mno_such_file_zz.rs\x1b[0m");
}

#[test]
fn ruleset_styles_each_component() {
    let rules = LsColors::from_string("*.txt=01;31");
    assert_eq!(
        lscolor_path(Some(&rules), "no_such_dir_zz/inner_zz/file.txt"),
        "\x1b[39mno_such_dir_zz/\x1b[0m\x1b[39minner_zz/\x1b[0m\x1b[1;31mfile.txt\x1b[0m"
    );
}

#[test]
fn ruleset_sees_the_quotes_of_a_quoted_path() {
    let rules = LsColors::from_string("*.txt=01;31:*.txt\"=32");
    assert_eq!(
        process_line(Some(&rules), false, "R  \"old zz.txt\" -> new_zz.txt"),
        vec!["\x1b[32mR\x1b[31m_\x1b[0m \x1b[32m\"old zz.txt\"\x1b[0m -> \x1b[1;31mnew_zz.txt\x1b[0m\n"]
    );
}

#[test]
fn styled_single_path() {
    let rules = LsColors::from_string("*.txt=01;31");
    assert_eq!(
        process_line(Some(&rules), false, " M no_such_dir_zz/file.txt"),
        vec!["\x1b[32m_\x1b[31mM\x1b[0m \x1b[39mno_such_dir_zz/\x1b[0m\x1b[1;31mfile.txt\x1b[0m\n"]
    );
    assert_eq!(
        process_line(Some(&rules), true, "?? file_zz.rs"),
        vec!["\x1b[31m??\x1b[0m \x1b[39mfile_zz.rs\x1b[0m\n"]
    );
}

#[test]
fn styled_rename_in_split_mode() {
    let rules = LsColors::from_string("*.txt=01;31:*.md=36");
    assert_eq!(
        process_line(Some(&rules), true, "R  old_zz.txt -> new_zz.md"),
        vec![
            "\x1b[32mR\x1b[31m_\x1b[0m old_zz.txt -> new_zz.md :: \x1b[1;31mold_zz.txt\x1b[0m\n",
            "\x1b[32mR\x1b[31m_\x1b[0m old_zz.txt -> new_zz.md :: \x1b[36mnew_zz.md\x1b[0m\n",
        ]
    );
}

#[test]
fn ruleset_rejects_what_the_parser_rejects() {
    let rules = LsColors::from_string("*.txt=01;31");
    assert!(process_line(Some(&rules), false, "abc").is_empty());
    assert!(process_line(Some(&rules), true, "MMMfile.txt").is_empty());
}

#[test]
fn path_that_the_components_do_not_add_up_to_is_flat() {
    let rules = LsColors::from_string("*.txt=01;31");
    assert_eq!(lscolor_path(Some(&rules), "no_such_dir_zz/"), "\x1b[39mno_such_dir_zz/\x1b[0m");
    assert_eq!(
        lscolor_path(Some(&rules), "no_such_dir_zz//file.txt"),
        "\x1b[39mno_such_dir_zz//file.txt\x1b[0m"
    );
    assert_eq!(
        lscolor_path(Some(&rules), "no_such_dir_zz/./file.txt"),
        "\x1b[39mno_such_dir_zz/./file.txt\x1b[0m"
    );
    assert_eq!(lscolor_path(Some(&rules), ""), "\x1b[39m\x1b[0m");
}

#[test]
fn style_without_attributes_gives_the_flat_colour() {
    let rules = LsColors::from_string("*.txt=00:*.md=0");
    assert_eq!(lscolor_path(Some(&rules), "file_zz.txt"), "\x1b[39mfile_zz.txt\x1b[0m");
    assert_eq!(lscolor_path(Some(&rules), "file_zz.md"), "\x1b[39mfile_zz.md\x1b[0m");
}

fn without_escapes(shown: &str) -> String {
    let mut bare = String::new();
    let mut rest = shown;
    while let Some(at) = rest.find('\x1b') {
        bare.push_str(&rest[..at]);
        let end = rest[at..].find('m').unwrap();
        rest = &rest[at + end + 1..];
    }
    bare.push_str(rest);
    bare
}

#[test]
fn styled_lines_keep_their_text() {
    let rules = LsColors::from_string("*.txt=01;31:*.md=04;36:di=01;34:*.rs=0");
    for payload in ["a.txt", "no_such_dir_zz/b.md", "tail_zz/", "x//y.rs", " lead.txt", "\"q r.txt\"", "a->b.md"] {
        for code in [" M", "??", "A ", "UU"] {
            let line = format!("{} {}", code, payload);
            for split in [false, true] {
                let out = process_line(Some(&rules), split, &line);
                assert_eq!(out.len(), 1, "on {:?}", line);
                assert_eq!(without_escapes(&out[0]), format!("{} {}\n", code.replace(" ", "_"), payload), "on {:?}", line);
                assert!(out[0].ends_with("\x1b[0m\n"), "on {:?}", line);
                assert!(!out[0].ends_with("\x1b[0m\x1b[0m\n"), "on {:?}", line);
            }
        }
    }
}

#[test]
fn styled_split_lines_end_with_the_two_paths() {
    let rules = LsColors::from_string("*.txt=01;31:*.md=04;36:di=01;34");
    let cases = [
        ("R  old_zz.txt -> new_zz.md", "old_zz.txt", "new_zz.md"),
        ("R  \"old zz.txt\" -> no_such_dir_zz/new.md", "\"old zz.txt\"", "no_such_dir_zz/new.md"),
        ("RM a_zz/ -> \"b zz//c.txt\"", "a_zz/", "\"b zz//c.txt\""),
        ("C   -> ", "", ""),
    ];
    for (line, first, second) in cases {
        let out = process_line(Some(&rules), true, line);
        assert_eq!(out.len(), 2, "on {:?}", line);
        let head = process_line(None, true, line)[0].clone();
        let head = &head[..head.find(" :: ").unwrap() + 4];
        assert!(out[0].starts_with(head), "on {:?}", line);
        assert!(out[1].starts_with(head), "on {:?}", line);
        assert_eq!(without_escapes(&out[0][head.len()..]), format!("{}\n", first), "on {:?}", line);
        assert_eq!(without_escapes(&out[1][head.len()..]), format!("{}\n", second), "on {:?}", line);
    }
}

#[test]
fn styled_path_keeps_its_text() {
    let rules = LsColors::from_string("*.txt=01;31:*.md=04;36:di=01;34");
    for path in ["a.txt", "no_such_dir_zz/b.md", "x/y/z", "../up_zz.txt", "/rooted_zz/file.txt", "tail_zz/", "a//b", " lead.txt", "\"q r.txt\""] {
        let shown = lscolor_path(Some(&rules), path);
        let bare = without_escapes(&shown);
        assert_eq!(bare, path, "on {:?}", path);
        assert!(shown.ends_with("\x1b[0m"), "on {:?}", path);
        assert!(!shown.ends_with("\x1b[0m\x1b[0m"), "on {:?}", path);
    }
}
