//! How a value is shown.
use crate::parser::value::{Value, ValueView};
use crate::text::{chars_of, string_between};
use vstd::prelude::*;

verus! {

/// A text without the ending `.0`, if it has that ending.
pub open spec fn without_point_zero(text: Seq<char>) -> Seq<char> {
    if text.len() >= 2 && text[text.len() - 2] == '.' && text[text.len() - 1] == '0' {
        text.take(text.len() - 2)
    } else {
        text
    }
}

/// The text that shows a value. A number is shown by its decimal rendering
/// `number_text`, without a redundant ending `.0`; a boolean as `true` or
/// `false`; a string as it is; and `nil` as `nil`.
pub open spec fn rendering(v: ValueView, number_text: Seq<char>) -> Seq<char> {
    match v {
        ValueView::Number(_) => without_point_zero(number_text),
        ValueView::Boolean(b) => if b {
            "true"@
        } else {
            "false"@
        },
        ValueView::Text(s) => s,
        ValueView::Nil => "nil"@,
    }
}

/// The text that shows a value. For a number, `number_text` is its decimal
/// rendering; for any other value it is not read.
pub fn stringify(value: &Value, number_text: &str) -> (s: String)
    ensures
        s@ == rendering(value@, number_text@),
{
    match value {
        Value::Number(_) => {
            let chars: Vec<char> = chars_of(number_text);
            let n: usize = chars.len();
            if n >= 2 && chars[n - 2] == '.' && chars[n - 1] == '0' {
                string_between(&chars, 0, n - 2)
            } else {
                number_text.to_owned()
            }
        },
        Value::Boolean(b) => {
            if *b {
                "true".to_owned()
            } else {
                "false".to_owned()
            }
        },
        Value::Text(s) => s.clone(),
        Value::Nil => "nil".to_owned(),
    }
}

} // verus!
