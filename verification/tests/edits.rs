use agentic_sandbox::edits::{apply_edit, apply_pi_edits, EditError, PiEditError};
use agentic_sandbox::text::debug_quote;

fn pairs(items: &[(&str, &str)]) -> Vec<(String, String)> {
    items.iter().map(|(o, n)| (o.to_string(), n.to_string())).collect()
}

#[test]
fn unique_replacement_changes_only_the_one_occurrence() {
    assert_eq!(apply_edit("hello world", "world", "there", false), Ok("hello there".to_string()));
    assert_eq!(apply_edit("héllo wörld", "wörld", "there", false), Ok("héllo there".to_string()));
}

#[test]
fn missing_and_ambiguous_old_strings_are_errors() {
    assert_eq!(apply_edit("abc", "x", "y", false), Err(EditError::OldStringNotFound));
    assert_eq!(apply_edit("abc", "x", "y", true), Err(EditError::OldStringNotFound));
    assert_eq!(apply_edit("a a a", "a", "b", false), Err(EditError::OldStringAmbiguous { count: 3 }));
    assert_eq!(
        EditError::OldStringAmbiguous { count: 3 }.message(),
        "old_string appears 3 times in the file; ambiguous without replace_all"
    );
    assert_eq!(EditError::OldStringNotFound.message(), "old_string not found in file");
}

#[test]
fn replace_all_matches_str_replace() {
    for (content, old, new) in [("a a a", "a", "b"), ("aaa", "aa", "x"), ("ab", "", "x"), ("xyz", "y", "")] {
        assert_eq!(apply_edit(content, old, new, true), Ok(content.replace(old, new)), "{content:?} {old:?}");
    }
}

#[test]
fn empty_old_string_counts_every_boundary() {
    assert_eq!(apply_edit("ab", "", "x", false), Err(EditError::OldStringAmbiguous { count: 3 }));
    assert_eq!(apply_edit("", "", "x", false), Ok("x".to_string()));
}

#[test]
fn batch_edits_apply_against_the_original_in_one_pass() {
    assert_eq!(apply_pi_edits("one two three", &pairs(&[("one", "1"), ("three", "3")])), Ok("1 two 3".to_string()));
    assert_eq!(apply_pi_edits("ab", &pairs(&[("a", "b"), ("b", "a")])), Ok("ba".to_string()));
    assert_eq!(apply_pi_edits("unchanged", &[]), Ok("unchanged".to_string()));
}

#[test]
fn batch_edit_errors_name_the_offending_text() {
    let missing = apply_pi_edits("abc", &pairs(&[("b", "x"), ("q\"", "y")])).unwrap_err();
    assert_eq!(missing, PiEditError::OldTextNotFound("q\"".to_string()));
    assert_eq!(missing.message(), "oldText not found in file: \"q\\\"\"");
    let repeated = apply_pi_edits("a a", &pairs(&[("a", "b")])).unwrap_err();
    assert_eq!(repeated, PiEditError::OldTextNotUnique { old_text: "a".to_string(), count: 2 });
    assert_eq!(repeated.message(), "oldText appears 2 times in the file, must be unique: \"a\"");
    let overlap = apply_pi_edits("abcd", &pairs(&[("bc", "x"), ("abc", "y")])).unwrap_err();
    assert_eq!(overlap, PiEditError::Overlap);
    assert_eq!(overlap.message(), "edits[] entries overlap, which the schema forbids");
}

#[test]
fn single_batch_edit_agrees_with_a_unique_replacement() {
    for (content, old) in [("hello world", "world"), ("abc", "x"), ("a a", "a")] {
        let batch = apply_pi_edits(content, &pairs(&[(old, "new")]));
        let single = apply_edit(content, old, "new", false);
        match (batch, single) {
            (Ok(a), Ok(b)) => assert_eq!(a, b),
            (Err(PiEditError::OldTextNotFound(o)), Err(EditError::OldStringNotFound)) => assert_eq!(o, old),
            (Err(PiEditError::OldTextNotUnique { old_text, count }), Err(EditError::OldStringAmbiguous { count: n })) => {
                assert_eq!(old_text, old);
                assert_eq!(count, n);
            }
            other => panic!("the two schemas disagree: {other:?}"),
        }
    }
}

#[test]
fn debug_quote_escapes_like_debug_formatting() {
    assert_eq!(debug_quote("a\"b\n"), format!("{:?}", "a\"b\n"));
}

#[test]
fn a_unique_replacement_is_undone_by_the_reverse_one() {
    let edited = apply_edit("hello world", "world", "there", false).unwrap();
    assert_eq!(apply_edit(&edited, "there", "world", false), Ok("hello world".to_string()));
}

#[test]
fn batch_order_does_not_matter_outside_empty_insertions() {
    let forward = pairs(&[("one", "1"), ("three", "3"), ("two", "2")]);
    let backward = pairs(&[("two", "2"), ("three", "3"), ("one", "1")]);
    assert_eq!(apply_pi_edits("one two three", &forward), apply_pi_edits("one two three", &backward));
    let overlapping = pairs(&[("one two", "x"), ("two three", "y")]);
    let reversed = pairs(&[("two three", "y"), ("one two", "x")]);
    assert!(apply_pi_edits("one two three", &overlapping).is_err());
    assert!(apply_pi_edits("one two three", &reversed).is_err());
    assert_eq!(apply_pi_edits("", &pairs(&[("", "a"), ("", "b")])), Ok("ab".to_string()));
    assert_eq!(apply_pi_edits("", &pairs(&[("", "b"), ("", "a")])), Ok("ba".to_string()));
}
