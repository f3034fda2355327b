//! Message templates: text with positional placeholders.
//!
//! A template is literal text in which `{}` stands for the next argument, `{3}` for the
//! argument of that number, and `{{` and `}}` for a single brace. Argument 0 is the place
//! where the error was raised; the fields of the error follow from 1. The first `{}`
//! therefore stands for the first field.

use vstd::prelude::*;
use crate::decimal::{is_digit, number};

verus! {

/// Why a text is not a template for a given number of fields.
#[derive(Clone, Copy, Debug, PartialEq, Eq)]
pub enum TemplateError {
    /// The `{` at this character opens nothing: neither `{{`, `{}` nor `{` digits `}` follows.
    Unclosed { at: usize },
    /// The `}` at this character closes nothing and is not doubled.
    Unopened { at: usize },
    /// The placeholder at this character asks for an argument that is not there.
    OutOfRange { at: usize },
}

/// What stands at one position of a template.
pub enum Token {
    /// A character of the message itself.
    Literal(char),
    /// `{}`: the next argument in turn.
    Next,
    /// `{n}`: the argument of that number.
    Indexed(nat),
    /// A `{` that opens nothing.
    Unclosed,
    /// A `}` that closes nothing.
    Unopened,
}

/// The end of the run of digits that starts at `from`.
pub open spec fn digits_end(text: Seq<char>, from: int) -> int
    decreases text.len() - from,
{
    if 0 <= from < text.len() && is_digit(text[from]) {
        digits_end(text, from + 1)
    } else {
        from
    }
}

/// The token that starts at `at`, and the position after it. A token that is a fault
/// ends where it starts.
pub open spec fn token_at(text: Seq<char>, at: int) -> (Token, int)
    recommends
        0 <= at < text.len(),
{
    let c = text[at];
    let doubled = at + 1 < text.len() && text[at + 1] == c;
    if c == '{' {
        let end = digits_end(text, at + 1);
        if doubled {
            (Token::Literal('{'), at + 2)
        } else if end < text.len() && text[end] == '}' {
            if end == at + 1 {
                (Token::Next, end + 1)
            } else {
                (Token::Indexed(number(text.subrange(at + 1, end))), end + 1)
            }
        } else {
            (Token::Unclosed, at)
        }
    } else if c == '}' {
        if doubled {
            (Token::Literal('}'), at + 2)
        } else {
            (Token::Unopened, at)
        }
    } else {
        (Token::Literal(c), at + 1)
    }
}

/// A run of digits ends within the text, holds digits only, and stops at the first
/// character that is none.
pub proof fn lemma_digits_end_bounds(text: Seq<char>, from: int)
    requires
        0 <= from <= text.len(),
    ensures
        from <= digits_end(text, from) <= text.len(),
        forall|i: int| from <= i < digits_end(text, from) ==> is_digit(#[trigger] text[i]),
        digits_end(text, from) < text.len() ==> !is_digit(text[digits_end(text, from)]),
    decreases text.len() - from,
{
    if from < text.len() && is_digit(text[from]) {
        lemma_digits_end_bounds(text, from + 1);
    }
}

/// The first fault met when `text` is read from `at` on, with `next` the number of the
/// argument that the next `{}` stands for and `count` the number of arguments there are.
pub open spec fn fault_from(text: Seq<char>, at: int, next: nat, count: nat) -> Option<TemplateError>
    decreases text.len() - at,
{
    if 0 <= at < text.len() {
        let (token, after) = token_at(text, at);
        proof {
            lemma_digits_end_bounds(text, at + 1);
        }
        match token {
            Token::Literal(_) => fault_from(text, after, next, count),
            Token::Next => if next < count {
                fault_from(text, after, next + 1, count)
            } else {
                Some(TemplateError::OutOfRange { at: at as usize })
            },
            Token::Indexed(n) => if n < count {
                fault_from(text, after, next, count)
            } else {
                Some(TemplateError::OutOfRange { at: at as usize })
            },
            Token::Unclosed => Some(TemplateError::Unclosed { at: at as usize }),
            Token::Unopened => Some(TemplateError::Unopened { at: at as usize }),
        }
    } else {
        None
    }
}

/// What `text` from `at` on turns into when each placeholder gives way to its argument.
pub open spec fn expand_from(text: Seq<char>, at: int, next: nat, args: Seq<Seq<char>>) -> Seq<char>
    decreases text.len() - at,
{
    if 0 <= at < text.len() {
        let (token, after) = token_at(text, at);
        proof {
            lemma_digits_end_bounds(text, at + 1);
        }
        match token {
            Token::Literal(c) => seq![c] + expand_from(text, after, next, args),
            Token::Next => args[next as int] + expand_from(text, after, next + 1, args),
            Token::Indexed(n) => args[n as int] + expand_from(text, after, next, args),
            Token::Unclosed => Seq::empty(),
            Token::Unopened => Seq::empty(),
        }
    } else {
        Seq::empty()
    }
}

/// The fault, if any, that keeps `text` from being a template for an error with `fields`
/// fields.
pub open spec fn template_fault(text: Seq<char>, fields: nat) -> Option<TemplateError> {
    fault_from(text, 0, 1, fields + 1)
}

/// The message that the template `text` gives for the arguments `args`, the place first.
pub open spec fn expand(text: Seq<char>, args: Seq<Seq<char>>) -> Seq<char> {
    expand_from(text, 0, 1, args)
}

/// `text` with each of its braces doubled.
pub open spec fn escaped(text: Seq<char>) -> Seq<char>
    decreases text.len(),
{
    if text.len() == 0 {
        Seq::empty()
    } else if text[0] == '{' || text[0] == '}' {
        seq![text[0], text[0]] + escaped(text.drop_first())
    } else {
        seq![text[0]] + escaped(text.drop_first())
    }
}

/// Any text with its braces doubled is a template for any number of fields, and its
/// message is the text, whatever the arguments.
pub proof fn lemma_escaped_text_is_its_own_message(
    text: Seq<char>,
    fields: nat,
    args: Seq<Seq<char>>,
)
    ensures
        template_fault(escaped(text), fields) is None,
        expand(escaped(text), args) == text,
{
    lemma_escaped_from(Seq::empty(), text, fields + 1, args);
    assert(Seq::<char>::empty() + escaped(text) =~= escaped(text));
}

proof fn lemma_escaped_from(before: Seq<char>, text: Seq<char>, count: nat, args: Seq<Seq<char>>)
    ensures
        fault_from(before + escaped(text), before.len() as int, 1, count) is None,
        expand_from(before + escaped(text), before.len() as int, 1, args) == text,
    decreases text.len(),
{
    let whole = before + escaped(text);
    if text.len() > 0 {
        let c = text[0];
        let rest = text.drop_first();
        let piece = if c == '{' || c == '}' {
            seq![c, c]
        } else {
            seq![c]
        };
        assert(whole =~= (before + piece) + escaped(rest));
        lemma_escaped_from(before + piece, rest, count, args);
        assert(whole[before.len() as int] == c);
        assert(seq![c] + rest =~= text);
    } else {
        assert(whole =~= before);
    }
}

/// A template that is free of faults reads no argument beyond the place and the fields:
/// two lists of arguments that agree on those give the same message.
pub proof fn lemma_message_reads_the_given_arguments(
    text: Seq<char>,
    fields: nat,
    one: Seq<Seq<char>>,
    other: Seq<Seq<char>>,
)
    requires
        template_fault(text, fields) is None,
        forall|i: int| 0 <= i <= fields ==> one[i] == other[i],
    ensures
        expand(text, one) == expand(text, other),
{
    lemma_reads_from(text, 0, 1, fields + 1, one, other);
}

proof fn lemma_reads_from(
    text: Seq<char>,
    at: int,
    next: nat,
    count: nat,
    one: Seq<Seq<char>>,
    other: Seq<Seq<char>>,
)
    requires
        0 <= at,
        fault_from(text, at, next, count) is None,
        forall|i: int| 0 <= i < count ==> one[i] == other[i],
    ensures
        expand_from(text, at, next, one) == expand_from(text, at, next, other),
    decreases text.len() - at,
{
    if at < text.len() {
        lemma_digits_end_bounds(text, at + 1);
        let (token, after) = token_at(text, at);
        match token {
            Token::Literal(_) => lemma_reads_from(text, after, next, count, one, other),
            Token::Next => lemma_reads_from(text, after, next + 1, count, one, other),
            Token::Indexed(_) => lemma_reads_from(text, after, next, count, one, other),
            Token::Unclosed => {},
            Token::Unopened => {},
        }
    }
}

/// Text without braces is a template for any number of fields, and its message is the
/// text itself, whatever the arguments.
pub proof fn lemma_plain_text_is_its_own_message(text: Seq<char>, fields: nat, args: Seq<Seq<char>>)
    requires
        forall|i: int| 0 <= i < text.len() ==> text[i] != '{' && text[i] != '}',
    ensures
        template_fault(text, fields) is None,
        expand(text, args) == text,
{
    lemma_plain_text_from(text, 0, fields + 1, args);
    assert(text.subrange(0, text.len() as int) =~= text);
}

proof fn lemma_plain_text_from(text: Seq<char>, at: int, count: nat, args: Seq<Seq<char>>)
    requires
        0 <= at <= text.len(),
        forall|i: int| 0 <= i < text.len() ==> text[i] != '{' && text[i] != '}',
    ensures
        fault_from(text, at, 1, count) is None,
        expand_from(text, at, 1, args) == text.subrange(at, text.len() as int),
    decreases text.len() - at,
{
    if at < text.len() {
        lemma_plain_text_from(text, at + 1, count, args);
        assert(seq![text[at]] + text.subrange(at + 1, text.len() as int) =~= text.subrange(
            at,
            text.len() as int,
        ));
    } else {
        assert(text.subrange(at, text.len() as int) =~= Seq::<char>::empty());
    }
}

/// A run of digits with one more digit after it writes ten times the number, plus the digit.
proof fn lemma_number_grows(text: Seq<char>, from: int, to: int)
    requires
        0 <= from <= to < text.len(),
    ensures
        number(text.subrange(from, to + 1)) == number(text.subrange(from, to)) * 10 + (text[to] as nat
            - '0' as nat) as nat,
{
    assert(text.subrange(from, to + 1).drop_last() =~= text.subrange(from, to));
}

/// Reads the run of digits that starts at `from`: where it ends, and the number it
/// writes, unless that number is beyond `usize`.
fn read_number(text: &Vec<char>, from: usize) -> (r: (usize, Option<usize>))
    requires
        from <= text.len(),
    ensures
        r.0 == digits_end(text@, from as int),
        from <= r.0 <= text.len(),
        match r.1 {
            Some(n) => n == number(text@.subrange(from as int, r.0 as int)),
            None => number(text@.subrange(from as int, r.0 as int)) > usize::MAX,
        },
{
    let mut at: usize = from;
    let mut value: Option<usize> = Some(0);
    while at < text.len() && '0' <= text[at] && text[at] <= '9'
        invariant
            from <= at <= text.len(),
            digits_end(text@, at as int) == digits_end(text@, from as int),
            match value {
                Some(n) => n == number(text@.subrange(from as int, at as int)),
                None => number(text@.subrange(from as int, at as int)) > usize::MAX,
            },
        decreases text.len() - at,
    {
        let d: usize = match text[at] {
            '0' => 0,
            '1' => 1,
            '2' => 2,
            '3' => 3,
            '4' => 4,
            '5' => 5,
            '6' => 6,
            '7' => 7,
            '8' => 8,
            _ => 9,
        };
        proof {
            lemma_number_grows(text@, from as int, at as int);
        }
        value = match value {
            Some(n) => if n <= (usize::MAX - d) / 10 {
                Some(n * 10 + d)
            } else {
                None
            },
            None => None,
        };
        at += 1;
    }
    (at, value)
}

/// A token as the reader meets it: as [`Token`], with the number in machine size.
enum Step {
    Literal(char),
    Next,
    Indexed(usize),
    /// `{n}` with `n` beyond `usize`.
    Beyond,
    Unclosed,
    Unopened,
}

spec fn step_is(step: Step, token: Token) -> bool {
    match step {
        Step::Literal(c) => token == Token::Literal(c),
        Step::Next => token == Token::Next,
        Step::Indexed(n) => token == Token::Indexed(n as nat),
        Step::Beyond => token matches Token::Indexed(n) && n > usize::MAX,
        Step::Unclosed => token == Token::Unclosed,
        Step::Unopened => token == Token::Unopened,
    }
}

/// Reads the token that starts at `at`.
fn read_token(text: &Vec<char>, at: usize) -> (r: (Step, usize))
    requires
        at < text.len(),
    ensures
        step_is(r.0, token_at(text@, at as int).0),
        r.1 == token_at(text@, at as int).1,
        at <= r.1 <= text.len(),
        !(r.0 is Unclosed) && !(r.0 is Unopened) ==> at < r.1,
{
    let c = text[at];
    let doubled = at + 1 < text.len() && text[at + 1] == c;
    if c == '{' {
        if doubled {
            (Step::Literal('{'), at + 2)
        } else {
            let (end, value) = read_number(text, at + 1);
            if end < text.len() && text[end] == '}' {
                if end == at + 1 {
                    (Step::Next, end + 1)
                } else {
                    match value {
                        Some(n) => (Step::Indexed(n), end + 1),
                        None => (Step::Beyond, end + 1),
                    }
                }
            } else {
                (Step::Unclosed, at)
            }
        }
    } else if c == '}' {
        if doubled {
            (Step::Literal('}'), at + 2)
        } else {
            (Step::Unopened, at)
        }
    } else {
        (Step::Literal(c), at + 1)
    }
}

/// What a template stands for: its text, and the number of fields it was written for.
pub struct TemplateModel {
    pub text: Seq<char>,
    pub fields: nat,
}

/// A message template that was found free of faults for a given number of fields.
#[derive(Debug, PartialEq, Eq)]
pub struct Template {
    text: Vec<char>,
    fields: usize,
}

impl View for Template {
    type V = TemplateModel;

    closed spec fn view(&self) -> TemplateModel {
        TemplateModel { text: self.text@, fields: self.fields as nat }
    }
}

/// Looks for the first fault in `text` as a template for `fields` fields.
fn find_fault(text: &Vec<char>, fields: usize) -> (fault: Option<TemplateError>)
    ensures
        fault == template_fault(text@, fields as nat),
{
    let mut at: usize = 0;
    let mut next: usize = 1;
    while at < text.len()
        invariant
            at <= text.len(),
            1 <= next <= fields + 1,
            next <= at + 1,
            fault_from(text@, at as int, next as nat, fields as nat + 1) == template_fault(
                text@,
                fields as nat,
            ),
        decreases text.len() - at,
    {
        let (step, after) = read_token(text, at);
        match step {
            Step::Literal(_) => {},
            Step::Next => {
                if next > fields {
                    return Some(TemplateError::OutOfRange { at });
                }
                next += 1;
            },
            Step::Indexed(n) => {
                if n > fields {
                    return Some(TemplateError::OutOfRange { at });
                }
            },
            Step::Beyond => {
                return Some(TemplateError::OutOfRange { at });
            },
            Step::Unclosed => {
                return Some(TemplateError::Unclosed { at });
            },
            Step::Unopened => {
                return Some(TemplateError::Unopened { at });
            },
        }
        at = after;
    }
    None
}

impl Template {
    #[verifier::type_invariant]
    spec fn sound(&self) -> bool {
        template_fault(self.text@, self.fields as nat) is None
    }

    /// Reads `text` as a template for an error with `fields` fields, and says what is
    /// wrong with it if it is none.
    pub fn parse(text: &str, fields: usize) -> (r: Result<Template, TemplateError>)
        ensures
            match r {
                Ok(template) => template_fault(text@, fields as nat) is None && template@ == (
                TemplateModel { text: text@, fields: fields as nat }),
                Err(fault) => template_fault(text@, fields as nat) == Some(fault),
            },
    {
        let text = crate::text::chars_of(text);
        match find_fault(&text, fields) {
            Some(fault) => Err(fault),
            None => Ok(Template { text, fields }),
        }
    }

    /// The number of fields the template was written for.
    pub fn fields(&self) -> (fields: usize)
        ensures
            fields == self@.fields,
    {
        self.fields
    }

    /// Appends to `out` the message that the template gives for `args`.
    pub(crate) fn write(&self, args: &Vec<String>, out: &mut String)
        requires
            args.len() == self@.fields + 1,
        ensures
            final(out)@ == old(out)@ + expand(self@.text, args.deep_view()),
    {
        proof {
            use_type_invariant(self);
        }
        let ghost texts = args.deep_view();
        let mut at: usize = 0;
        let mut next: usize = 1;
        while at < self.text.len()
            invariant
                at <= self.text.len(),
                args.len() == self.fields + 1,
                texts == args.deep_view(),
                1 <= next <= self.fields + 1,
                next <= at + 1,
                fault_from(self.text@, at as int, next as nat, self.fields as nat + 1) is None,
                out@ + expand_from(self.text@, at as int, next as nat, texts) == old(out)@
                    + expand(self.text@, texts),
            decreases self.text.len() - at,
        {
            let (step, after) = read_token(&self.text, at);
            let ghost rest = expand_from(self.text@, after as int, next as nat, texts);
            match step {
                Step::Literal(c) => {
                    assert(out@.push(c) + rest == out@ + (seq![c] + rest));
                    out.push(c);
                },
                Step::Next => {
                    let ghost rest = expand_from(self.text@, after as int, next as nat + 1, texts);
                    assert(texts[next as int] == args[next as int]@);
                    assert((out@ + texts[next as int]) + rest == out@ + (texts[next as int] + rest));
                    out.append(args[next].as_str());
                    next += 1;
                },
                Step::Indexed(n) => {
                    assert(texts[n as int] == args[n as int]@);
                    assert((out@ + texts[n as int]) + rest == out@ + (texts[n as int] + rest));
                    out.append(args[n].as_str());
                },
                Step::Beyond => {},
                Step::Unclosed => {},
                Step::Unopened => {},
            }
            at = after;
        }
    }

    /// The message that the template gives for `args`, the place first and the fields
    /// after it; `None` when their number is not the one the template was written for.
    pub fn render(&self, args: &Vec<String>) -> (r: Option<String>)
        ensures
            match r {
                Some(message) => args.len() == self@.fields + 1 && message@ == expand(
                    self@.text,
                    args.deep_view(),
                ),
                None => args.len() != self@.fields + 1,
            },
    {
        if args.len() > 0 && args.len() - 1 == self.fields {
            let mut message = String::new();
            self.write(args, &mut message);
            Some(message)
        } else {
            None
        }
    }
}

} // verus!
