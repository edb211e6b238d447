//! Locating blocks, parsing specifications, and reassembling documents.

use listeria_core::page_element::PageElement;
use listeria_core::template::Template;

const START: &str = r"\{\{(X[^\|]*)";
const END: &str = r"\{\{(X end)(\s*\}\})";

fn bytes(s: &str) -> Vec<u8> {
    s.as_bytes().to_vec()
}

#[test]
fn paired_block_with_nested_value() {
    let doc = bytes("before {{X|a=1|b={{Y|z=2}}}} mid {{X end}} after");
    let pe = PageElement::new_from_text(&doc, START, END).expect("block expected");
    assert_eq!(pe.before().as_slice(), b"before ");
    assert_eq!(pe.template_start().as_slice(), b"{{X|a=1|b={{Y|z=2}}}}");
    assert_eq!(pe.inside().as_slice(), b" mid ");
    assert_eq!(pe.template_end().as_slice(), b"{{X end}}");
    assert_eq!(pe.after().as_slice(), b" after");
    assert!(!pe.is_just_text());
    assert!(!pe.is_self_closing());
    let t = pe.template();
    assert_eq!(t.get_title().as_slice(), b"X");
    assert_eq!(t.get_param(&bytes("a")).expect("a").as_slice(), b"1");
    assert_eq!(t.get_param(&bytes("b")).expect("b").as_slice(), b"{{Y|z=2}}");
    assert!(t.get_param(&bytes("z")).is_none());
}

#[test]
fn self_closing_when_no_end_marker() {
    let doc = bytes("before {{X|a=1}} tail");
    let pe = PageElement::new_from_text(&doc, START, END).expect("block expected");
    assert!(pe.is_self_closing());
    assert!(!pe.is_just_text());
    assert_eq!(pe.inside().as_slice(), b"");
    assert_eq!(pe.template_end().as_slice(), b"");
    assert_eq!(pe.before().as_slice(), b"before ");
    assert_eq!(pe.template_start().as_slice(), b"{{X|a=1}}");
    assert_eq!(pe.after().as_slice(), b" tail");
}

#[test]
fn overlapping_end_match_is_rejected() {
    // The start pattern's match runs to the end of the text, so the end
    // match starts strictly before the start match ends.
    let doc = bytes("{{X end}}");
    assert!(PageElement::new_from_text(&doc, START, END).is_none());
}

#[test]
fn unterminated_marker_is_rejected() {
    let doc = bytes("before {{X|a={{broken mid {{X end}} after");
    // Brace counting never returns to zero before the end match.
    let pe = PageElement::new_from_text(&doc, START, END);
    assert!(pe.is_none());
}

#[test]
fn missing_name_is_rejected() {
    // The resolved inner text starts with a separator: the name is empty.
    let doc = bytes("a {{|x=1}} b {{X end}} c");
    // Start pattern anchored on the bare delimiter so the inner text begins
    // with the separator.
    let pe = PageElement::new_from_text(&doc, r"\{\{(\|)", END);
    assert!(pe.is_none());
}

#[test]
fn no_marker_means_no_block() {
    let doc = bytes("nothing to see here");
    assert!(PageElement::new_from_text(&doc, START, END).is_none());
}

#[test]
fn round_trip_reproduces_document() {
    let doc = bytes("intro {{X|a=1}}\nOLD BODY\n{{X end}} outro");
    let pe = PageElement::new_from_text(&doc, START, END).expect("block expected");
    assert_eq!(pe.inside().as_slice(), b"\nOLD BODY\n");
    let out = pe.as_wikitext(&bytes("OLD BODY"));
    assert_eq!(out, doc);
}

#[test]
fn reassembly_splices_new_payload() {
    let doc = bytes("intro {{X|a=1}}\nOLD\n{{X end}} outro");
    let pe = PageElement::new_from_text(&doc, START, END).expect("block expected");
    let out = pe.as_wikitext(&bytes("NEW CONTENT"));
    assert_eq!(
        out.as_slice(),
        b"intro {{X|a=1}}\nNEW CONTENT\n{{X end}} outro".as_ref()
    );
}

#[test]
fn self_closing_reassembles_to_leading_text() {
    let doc = bytes("before {{X|a=1}} tail");
    let pe = PageElement::new_from_text(&doc, START, END).expect("block expected");
    let out = pe.as_wikitext(&bytes("ignored"));
    assert_eq!(out.as_slice(), b"before ");
}

#[test]
fn just_text_keeps_everything_in_before() {
    let doc = bytes("plain document");
    let mut pe = PageElement::new_just_text(&doc);
    assert!(pe.is_just_text());
    assert_eq!(pe.before().as_slice(), b"plain document");
    assert_eq!(pe.as_wikitext(&bytes("whatever")).as_slice(), b"plain document");
    assert_eq!(pe.new_inside(&bytes("rendered")).as_slice(), b"");
    assert_eq!(pe.get_and_clean_after().as_slice(), b"");
}

#[test]
fn get_and_clean_after_empties_the_tail() {
    let doc = bytes("a {{X|p=q}}\nx\n{{X end}} tail");
    let mut pe = PageElement::new_from_text(&doc, START, END).expect("block expected");
    assert_eq!(pe.get_and_clean_after().as_slice(), b" tail");
    assert_eq!(pe.after().as_slice(), b"");
}

#[test]
fn new_inside_hands_rendered_content_through() {
    let doc = bytes("a {{X|p=q}}\nx\n{{X end}} b");
    let pe = PageElement::new_from_text(&doc, START, END).expect("block expected");
    assert_eq!(pe.new_inside(&bytes("rendered")).as_slice(), b"rendered");
}

#[test]
fn get_template_end_counts_nesting() {
    assert_eq!(PageElement::get_template_end(&bytes("ab}}rest")), Some(4));
    assert_eq!(PageElement::get_template_end(&bytes("x{{y}}z}}tail")), Some(9));
    assert_eq!(PageElement::get_template_end(&bytes("never closes {")), None);
    assert_eq!(PageElement::get_template_end(&bytes("}}")), Some(2));
}

#[test]
fn template_positional_parameters_are_numbered() {
    let t = Template::new_from_params(&bytes("X|foo|bar|a=1|baz")).expect("parses");
    assert_eq!(t.get_title().as_slice(), b"X");
    assert_eq!(t.get_param(&bytes("1")).expect("1").as_slice(), b"foo");
    assert_eq!(t.get_param(&bytes("2")).expect("2").as_slice(), b"bar");
    assert_eq!(t.get_param(&bytes("3")).expect("3").as_slice(), b"baz");
    assert_eq!(t.get_param(&bytes("a")).expect("a").as_slice(), b"1");
}

#[test]
fn template_duplicate_name_last_wins() {
    let t = Template::new_from_params(&bytes("X|a=1|a=2")).expect("parses");
    assert_eq!(t.get_param(&bytes("a")).expect("a").as_slice(), b"2");
}

#[test]
fn template_empty_name_after_equals_is_kept() {
    let t = Template::new_from_params(&bytes("X|=v")).expect("parses");
    assert_eq!(t.get_param(&bytes("")).expect("empty").as_slice(), b"v");
}

#[test]
fn template_empty_title_fails() {
    assert!(Template::new_from_params(&bytes("")).is_none());
    assert!(Template::new_from_params(&bytes("|a=1")).is_none());
}

#[test]
fn template_separators_inside_braces_belong_to_the_value() {
    let t = Template::new_from_params(&bytes("X|a={{b|c=d}}|e=f")).expect("parses");
    assert_eq!(t.get_param(&bytes("a")).expect("a").as_slice(), b"{{b|c=d}}");
    assert_eq!(t.get_param(&bytes("e")).expect("e").as_slice(), b"f");
}

#[test]
fn template_two_digit_positional_names() {
    let t = Template::new_from_params(&bytes("X|a|b|c|d|e|f|g|h|i|j|k")).expect("parses");
    assert_eq!(t.get_param(&bytes("10")).expect("10").as_slice(), b"j");
    assert_eq!(t.get_param(&bytes("11")).expect("11").as_slice(), b"k");
}

#[test]
fn start_marker_matching_is_case_insensitive() {
    let doc = bytes("pre {{x|A=1}}\nbody\n{{x END}} post");
    let pe = PageElement::new_from_text(&doc, START, END).expect("block expected");
    assert_eq!(pe.template_start().as_slice(), b"{{x|A=1}}");
    assert_eq!(pe.template_end().as_slice(), b"{{x END}}");
}
