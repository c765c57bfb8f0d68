use std::borrow::Cow;

use pkg_diff::diff::{
    classify_paths, display_name, files_from_patches, status_text, ChangeStatus, Chunk, File, Line,
};

fn hunk<'a>(old: (u64, u64), new: (u64, u64), hint: &'a str, lines: Vec<patch::Line<'a>>) -> patch::Hunk<'a> {
    patch::Hunk {
        old_range: patch::Range { start: old.0, count: old.1 },
        new_range: patch::Range { start: new.0, count: new.1 },
        range_hint: hint,
        lines,
    }
}

fn patch_of<'a>(old: &'a str, new: &'a str, hunks: Vec<patch::Hunk<'a>>) -> patch::Patch<'a> {
    patch::Patch {
        old: patch::File { path: Cow::Borrowed(old), meta: None },
        new: patch::File { path: Cow::Borrowed(new), meta: None },
        hunks,
        end_newline: true,
    }
}

/// (kind, text, from, to) of a line; the kind agrees with the variant.
fn parts(l: &Line) -> (&str, &str, &str, &str) {
    let (variant, kind, text, from, to) = match l {
        Line::Add { kind, text, from_line_number, to_line_number } => ("add", kind, text, from_line_number, to_line_number),
        Line::Remove { kind, text, from_line_number, to_line_number } => {
            ("remove", kind, text, from_line_number, to_line_number)
        }
        Line::Context { kind, text, from_line_number, to_line_number } => {
            ("context", kind, text, from_line_number, to_line_number)
        }
    };
    assert_eq!(variant, kind.as_str());
    (kind.as_str(), text.as_str(), from.as_str(), to.as_str())
}

#[test]
fn chunk_numbers_context_remove_and_add_lines() {
    let h = hunk(
        (10, 3),
        (10, 4),
        "",
        vec![
            patch::Line::Context("a"),
            patch::Line::Remove("b"),
            patch::Line::Add("c"),
            patch::Line::Add("d"),
            patch::Line::Context("e"),
        ],
    );
    let c = Chunk::from_hunk(h);
    assert_eq!(c.header, "@@ -10,3 +10,4 @@");
    let got: Vec<_> = c.lines.iter().map(parts).collect();
    assert_eq!(
        got,
        vec![
            ("context", "a", "10", "10"),
            ("remove", "b", "11", ""),
            ("add", "c", "", "11"),
            ("add", "d", "", "12"),
            ("context", "e", "12", "13"),
        ]
    );
}

#[test]
fn last_numbers_match_start_plus_counts() {
    // old: start 7, two context and two removed lines: last old number 7 + 4 - 1
    // new: start 20, two context and one added line: last new number 20 + 3 - 1
    let h = hunk(
        (7, 4),
        (20, 3),
        "",
        vec![
            patch::Line::Remove("r1"),
            patch::Line::Context("c1"),
            patch::Line::Add("a1"),
            patch::Line::Context("c2"),
            patch::Line::Remove("r2"),
        ],
    );
    let c = Chunk::from_hunk(h);
    let got: Vec<_> = c.lines.iter().map(parts).collect();
    let last_old = got.iter().rev().find(|l| l.0 != "add").unwrap().2;
    let last_new = got.iter().rev().find(|l| l.0 != "remove").unwrap().3;
    assert_eq!(last_old, "10");
    assert_eq!(last_new, "22");
}

#[test]
fn hunk_with_range_hint_line() {
    let h = hunk(
        (1, 2),
        (1, 2),
        "",
        vec![
            patch::Line::Context("fn main() {"),
            patch::Line::Context("x"),
            patch::Line::Remove("y"),
            patch::Line::Add("z"),
        ],
    );
    let c = Chunk::from_hunk(h);
    assert_eq!(c.header, "@@ -1,2 +1,2 @@ fn main() {");
    let got: Vec<_> = c.lines.iter().map(parts).collect();
    assert_eq!(
        got,
        vec![("context", "x", "1", "1"), ("remove", "y", "2", ""), ("add", "z", "", "2")]
    );
}

#[test]
fn header_keeps_the_tokenized_hint() {
    let h = hunk((233, 7), (233, 7), " impl<'a> GameGenerator<'a> {", vec![patch::Line::Context("x")]);
    let c = Chunk::from_hunk(h);
    assert_eq!(c.header, "@@ -233,7 +233,7 @@ impl<'a> GameGenerator<'a> {");
    assert_eq!(c.lines.len(), 1);
}

#[test]
fn header_with_hint_and_hint_line() {
    let h = hunk((0, 0), (1, 1), " fn f()", vec![patch::Line::Remove("gone"), patch::Line::Add("new")]);
    let c = Chunk::from_hunk(h);
    assert_eq!(c.header, "@@ -0,0 +1,1 @@ fn f() gone");
    let got: Vec<_> = c.lines.iter().map(parts).collect();
    assert_eq!(got, vec![("add", "new", "", "1")]);
}

#[test]
fn empty_hunk_has_header_only() {
    let c = Chunk::from_hunk(hunk((3, 0), (3, 0), "", vec![]));
    assert_eq!(c.header, "@@ -3,0 +3,0 @@");
    assert!(c.lines.is_empty());
}

#[test]
fn large_line_numbers_do_not_overflow() {
    let c = Chunk::from_hunk(hunk(
        (u64::MAX, 2),
        (u64::MAX, 2),
        "",
        vec![patch::Line::Context("a"), patch::Line::Context("b")],
    ));
    let got: Vec<_> = c.lines.iter().map(parts).collect();
    assert_eq!(got[0].2, "18446744073709551615");
    assert_eq!(got[1].2, "18446744073709551616");
    assert_eq!(got[1].3, "18446744073709551616");
}

#[test]
fn inspect_added_file() {
    let p = patch_of(
        "/dev/null",
        "b/src/lib.rs",
        vec![hunk(
            (0, 0),
            (1, 3),
            "",
            vec![patch::Line::Add("one"), patch::Line::Add("two"), patch::Line::Add("three")],
        )],
    );
    let f = File::from_patch(p);
    assert_eq!(f.name, "src/lib.rs");
    assert_eq!(f.status, "added");
    assert_eq!(f.chunks.len(), 1);
    let got: Vec<_> = f.chunks[0].lines.iter().map(parts).collect();
    assert_eq!(
        got,
        vec![("add", "one", "", "1"), ("add", "two", "", "2"), ("add", "three", "", "3")]
    );
}

#[test]
fn removed_file() {
    let p = patch_of("a/old.txt", "/dev/null", vec![hunk((1, 1), (0, 0), "", vec![patch::Line::Remove("x")])]);
    let f = File::from_patch(p);
    assert_eq!(f.name, "old.txt");
    assert_eq!(f.status, "removed");
}

#[test]
fn changed_file() {
    let p = patch_of("a/src/main.rs", "b/src/main.rs", vec![]);
    let f = File::from_patch(p);
    assert_eq!(f.name, "src/main.rs");
    assert_eq!(f.status, "changed");
    assert!(f.chunks.is_empty());
}

#[test]
fn compare_renamed_file() {
    let p = patch_of("a/foo.txt", "b/bar.txt", vec![]);
    let f = File::from_patch(p);
    assert_eq!(f.name, "foo.txt -> bar.txt");
    assert_eq!(f.status, "renamed");
}

#[test]
fn digest_is_md5_of_name() {
    let f = File::from_patch(patch_of("a/foo.txt", "b/bar.txt", vec![]));
    assert_eq!(f.digest, format!("{:x}", md5::compute("foo.txt -> bar.txt")));
    assert_eq!(f.digest.len(), 32);
    assert_ne!(f.digest, f.name);
}

#[test]
fn owned_paths_are_read_too() {
    let p = patch::Patch {
        old: patch::File { path: Cow::Owned("a/with space".to_string()), meta: None },
        new: patch::File { path: Cow::Owned("b/with space".to_string()), meta: None },
        hunks: vec![],
        end_newline: true,
    };
    let f = File::from_patch(p);
    assert_eq!(f.name, "with space");
    assert_eq!(f.status, "changed");
}

#[test]
fn transforming_twice_gives_identical_output() {
    let make = || {
        patch_of(
            "a/x.rs",
            "b/y.rs",
            vec![
                hunk((1, 2), (1, 2), "", vec![patch::Line::Context("k"), patch::Line::Remove("r"), patch::Line::Add("a")]),
                hunk((9, 3), (9, 2), " ctx", vec![patch::Line::Context("h"), patch::Line::Remove("s"), patch::Line::Context("t"), patch::Line::Context("u")]),
            ],
        )
    };
    let a = File::from_patch(make());
    let b = File::from_patch(make());
    assert_eq!(format!("{:?}", a), format!("{:?}", b));
    let c = files_from_patches(vec![make(), make()]);
    assert_eq!(c.len(), 2);
    assert_eq!(format!("{:?}", c[0]), format!("{:?}", a));
    assert_eq!(format!("{:?}", c[1]), format!("{:?}", a));
}

#[test]
fn files_keep_patch_order() {
    let files = files_from_patches(vec![
        patch_of("/dev/null", "b/new.rs", vec![]),
        patch_of("a/gone.rs", "/dev/null", vec![]),
    ]);
    assert_eq!(files.len(), 2);
    assert_eq!(files[0].name, "new.rs");
    assert_eq!(files[1].name, "gone.rs");
    assert!(files_from_patches(vec![]).is_empty());
}

#[test]
fn classification_of_all_four_path_kinds() {
    assert_eq!(classify_paths("/dev/null", "b/x"), ChangeStatus::Added);
    assert_eq!(classify_paths("a/x", "/dev/null"), ChangeStatus::Removed);
    assert_eq!(classify_paths("a/x", "b/x"), ChangeStatus::Changed);
    assert_eq!(classify_paths("a/x", "b/y"), ChangeStatus::Renamed);
    assert_eq!(status_text(ChangeStatus::Added), "added");
    assert_eq!(status_text(ChangeStatus::Removed), "removed");
    assert_eq!(status_text(ChangeStatus::Changed), "changed");
    assert_eq!(status_text(ChangeStatus::Renamed), "renamed");
}

#[test]
fn display_names() {
    assert_eq!(display_name("/dev/null", "b/new.rs"), "new.rs");
    assert_eq!(display_name("a/old.rs", "/dev/null"), "old.rs");
    assert_eq!(display_name("a/dir/é.rs", "b/dir/é.rs"), "dir/é.rs");
    assert_eq!(display_name("a/1", "b/2"), "1 -> 2");
    assert_eq!(display_name("x", "y"), "");
    assert_eq!(classify_paths("x", "y"), ChangeStatus::Changed);
}
