use nes::{Template, TemplateError};

fn strings(items: &[&str]) -> Vec<String> {
    items.iter().map(|s| s.to_string()).collect()
}

fn render(text: &str, args: &[&str]) -> String {
    let template = Template::parse(text, args.len() - 1).unwrap();
    template.render(&strings(args)).unwrap()
}

#[test]
fn text_without_braces_is_itself() {
    assert_eq!(render("no arguments", &["here"]), "no arguments");
    assert_eq!(render("", &["here"]), "");
}

#[test]
fn empty_braces_take_the_fields_in_turn() {
    assert_eq!(render("{} and {}", &["here", "one", "two"]), "one and two");
}

#[test]
fn numbered_placeholders_pick_their_argument() {
    assert_eq!(
        render("Can not read file \"{2}\" : {1}", &["here", "denied", "a.rs"]),
        "Can not read file \"a.rs\" : denied"
    );
}

#[test]
fn argument_zero_is_the_place() {
    assert_eq!(render("at {0}: {1}", &["src/x.rs 3:4", "boom"]), "at src/x.rs 3:4: boom");
}

#[test]
fn numbers_do_not_move_the_turn() {
    assert_eq!(render("{2}{}{1}{}", &["p", "a", "b"]), "baab");
}

#[test]
fn doubled_braces_are_single_braces() {
    assert_eq!(render("{{}} {{{}}}", &["p", "x"]), "{} {x}");
}

#[test]
fn leading_zeros_are_read_as_decimal() {
    assert_eq!(render("{01}", &["p", "x"]), "x");
}

#[test]
fn characters_beyond_ascii_pass_through() {
    assert_eq!(render("café {} ✓", &["p", "naïve"]), "café naïve ✓");
}

#[test]
fn a_brace_that_opens_nothing_is_refused() {
    assert_eq!(Template::parse("abc {", 3), Err(TemplateError::Unclosed { at: 4 }));
    assert_eq!(Template::parse("{1", 3), Err(TemplateError::Unclosed { at: 0 }));
    assert_eq!(Template::parse("{x}", 3), Err(TemplateError::Unclosed { at: 0 }));
    assert_eq!(Template::parse("{:?}", 3), Err(TemplateError::Unclosed { at: 0 }));
    assert_eq!(Template::parse("é{ 1}", 3), Err(TemplateError::Unclosed { at: 1 }));
}

#[test]
fn a_brace_that_closes_nothing_is_refused() {
    assert_eq!(Template::parse("a}b", 0), Err(TemplateError::Unopened { at: 1 }));
    assert_eq!(Template::parse("}}}", 0), Err(TemplateError::Unopened { at: 2 }));
}

#[test]
fn a_placeholder_without_argument_is_refused() {
    assert_eq!(Template::parse("{}", 0), Err(TemplateError::OutOfRange { at: 0 }));
    assert_eq!(Template::parse("{} {}", 1), Err(TemplateError::OutOfRange { at: 3 }));
    assert_eq!(Template::parse("{1}{2}", 1), Err(TemplateError::OutOfRange { at: 3 }));
    assert_eq!(
        Template::parse("{99999999999999999999999999999999}", 5),
        Err(TemplateError::OutOfRange { at: 0 })
    );
}

#[test]
fn the_first_fault_is_the_one_reported() {
    assert_eq!(Template::parse("{5} }", 1), Err(TemplateError::OutOfRange { at: 0 }));
    assert_eq!(Template::parse("} {5}", 1), Err(TemplateError::Unopened { at: 0 }));
}

#[test]
fn fields_may_go_unused() {
    assert_eq!(render("poisoned", &["p", "who"]), "poisoned");
}

#[test]
fn render_wants_the_place_and_every_field() {
    let template = Template::parse("{}", 1).unwrap();
    assert_eq!(template.fields(), 1);
    assert_eq!(template.render(&strings(&["p"])), None);
    assert_eq!(template.render(&strings(&[])), None);
    assert_eq!(template.render(&strings(&["p", "a", "b"])), None);
    assert_eq!(template.render(&strings(&["p", "a"])), Some("a".to_string()));
}
