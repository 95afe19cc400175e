use webgl_rc::glsl::{
    check_directives, directives_of, expand, find_directives, includes, includes_of, splice,
    Directive, Found, Include,
};

fn named(from_root: bool, path: &str) -> Include {
    Include { from_root, path: path.as_bytes().to_vec() }
}

#[test]
fn includes_are_found_in_their_order() {
    let source = b"#include <common.glsl>\nvoid main() {}\n#include \"lights/point.glsl\"\n";
    assert_eq!(
        includes(source),
        Some(vec![named(true, "common.glsl"), named(false, "lights/point.glsl")])
    );
    assert_eq!(includes(b"void main() {}"), Some(vec![]));
    assert_eq!(includes(b""), Some(vec![]));
}

#[test]
fn a_name_ends_at_its_first_closing_delimiter() {
    assert_eq!(includes(b"#include <a><b>"), Some(vec![named(true, "a")]));
    assert_eq!(includes(b"#include\"x\" // \"y\""), Some(vec![named(false, "x")]));
    assert_eq!(includes(b"#include \t <spaced.glsl>"), Some(vec![named(true, "spaced.glsl")]));
    assert_eq!(includes(b"#include <>\n"), Some(vec![]));
    assert_eq!(includes(b"#include <unclosed\n>"), Some(vec![]));
    assert_eq!(includes(b"include <a>"), Some(vec![]));
}

#[test]
fn directives_are_replaced_by_their_texts() {
    let source = b"// head\n#include <common.glsl>\nvoid main() {}\n#include \"tail.glsl\"";
    let texts = vec![b"float one = 1.0;".to_vec(), b"// end".to_vec()];
    assert_eq!(
        expand(source, &texts),
        Some(b"// head\nfloat one = 1.0;\nvoid main() {}\n// end".to_vec())
    );
    assert_eq!(expand(b"void main() {}", &vec![]), Some(b"void main() {}".to_vec()));
    assert_eq!(expand(b"#include <a>", &vec![vec![]]), Some(vec![]));
    assert_eq!(expand(b"#include <a>#include <b>", &vec![b"1".to_vec(), b"2".to_vec()]), Some(b"12".to_vec()));
}

#[test]
fn a_text_is_needed_for_every_directive() {
    let source = b"#include <a>\n#include <b>\n";
    assert_eq!(expand(source, &vec![]), None);
    assert_eq!(expand(source, &vec![b"x".to_vec()]), None);
    assert_eq!(expand(source, &vec![vec![], vec![], vec![]]), None);
    assert_eq!(expand(b"plain", &vec![b"x".to_vec()]), None);
}

#[test]
fn directives_must_lie_in_the_source_one_after_the_other() {
    let first = Directive { start: 0, end: 12, name_start: 9, name_end: 12 };
    let second = Directive { start: 13, end: 25, name_start: 22, name_end: 25 };
    assert!(check_directives(25, &vec![first, second]));
    assert!(check_directives(30, &vec![first]));
    assert!(check_directives(0, &vec![]));
    assert!(!check_directives(24, &vec![first, second]));
    assert!(!check_directives(25, &vec![second, first]));
    assert!(!check_directives(25, &vec![first, first]));
    assert!(!check_directives(25, &vec![Directive { name_end: 10, ..first }]));
    assert!(!check_directives(25, &vec![Directive { name_start: 13, ..first }]));
    assert!(!check_directives(25, &vec![Directive { start: 10, ..first }]));
    assert!(!check_directives(25, &vec![Directive { name_end: 13, ..first }]));
}

#[test]
fn given_directives_are_read_and_spliced_as_they_lie() {
    let source = b"ab[<x>]cd[\"yz\"]ef";
    let directives = vec![
        Directive { start: 2, end: 7, name_start: 3, name_end: 6 },
        Directive { start: 9, end: 15, name_start: 10, name_end: 14 },
    ];
    assert!(check_directives(source.len(), &directives));
    assert_eq!(
        includes_of(source, &directives),
        vec![named(true, "x"), named(false, "yz")]
    );
    assert_eq!(
        splice(source, &directives, &vec![b"1".to_vec(), b"two".to_vec()]),
        b"ab1cdtwoef".to_vec()
    );
}

#[test]
fn matches_without_a_group_are_no_directives() {
    let with = Found { start: 0, end: 12, group: Some((9, 12)) };
    let without = Found { start: 13, end: 20, group: None };
    assert_eq!(
        directives_of(&vec![with]),
        Some(vec![Directive { start: 0, end: 12, name_start: 9, name_end: 12 }])
    );
    assert_eq!(directives_of(&vec![with, without]), None);
    assert_eq!(directives_of(&vec![without, with]), None);
    assert_eq!(directives_of(&vec![]), Some(vec![]));
}

#[test]
fn directives_are_found_by_their_offsets() {
    assert_eq!(
        find_directives(b"ab#include <x>cd"),
        Some(vec![Directive { start: 2, end: 14, name_start: 11, name_end: 14 }])
    );
    assert_eq!(
        find_directives(b"#include\"one\"\n#include   <two>"),
        Some(vec![
            Directive { start: 0, end: 13, name_start: 8, name_end: 13 },
            Directive { start: 14, end: 30, name_start: 25, name_end: 30 },
        ])
    );
    assert_eq!(find_directives(b"no directive"), Some(vec![]));
}
