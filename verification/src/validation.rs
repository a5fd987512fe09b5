//! The kind of data validation rule that the validation tool sets, decided
//! from its arguments.
use vstd::prelude::*;
use crate::text::{chars_of, same_chars};

verus! {

/// The kind of a validation rule, with what the kind itself needs: the
/// allowed items of a list, the formula of a custom rule. The bounds of a
/// range or length rule are read from the arguments by the caller.
pub enum ValidationKind {
    List(Vec<String>),
    NumberRange,
    DateRange,
    TextLength,
    Custom(String),
}

/// The text of a [`ValidationKind`].
pub enum KindView {
    List(Seq<Seq<char>>),
    NumberRange,
    DateRange,
    TextLength,
    Custom(Seq<char>),
}

/// The text of a [`ValidationKind`].
pub open spec fn kind_view(k: ValidationKind) -> KindView {
    match k {
        ValidationKind::List(items) => KindView::List(items@.map_values(|s: String| s@)),
        ValidationKind::NumberRange => KindView::NumberRange,
        ValidationKind::DateRange => KindView::DateRange,
        ValidationKind::TextLength => KindView::TextLength,
        ValidationKind::Custom(f) => KindView::Custom(f@),
    }
}

/// The kind of rule that `rule_type` asks for, or the error message: a list
/// needs non-empty `list_items`, a custom rule a `formula`, and any other type
/// than `list`, `number_range`, `date_range`, `text_length` and `custom` is
/// unknown.
pub open spec fn validation_kind_spec(rule_type: Seq<char>, list_items: Option<Seq<Seq<char>>>, formula: Option<Seq<char>>) -> Result<KindView, Seq<char>> {
    if rule_type == "list"@ {
        match list_items {
            None => Err("list_items is required for rule_type 'list'"@),
            Some(items) => if items.len() == 0 {
                Err("list_items must not be empty"@)
            } else {
                Ok(KindView::List(items))
            },
        }
    } else if rule_type == "number_range"@ {
        Ok(KindView::NumberRange)
    } else if rule_type == "date_range"@ {
        Ok(KindView::DateRange)
    } else if rule_type == "text_length"@ {
        Ok(KindView::TextLength)
    } else if rule_type == "custom"@ {
        match formula {
            None => Err("formula is required for rule_type 'custom'"@),
            Some(f) => Ok(KindView::Custom(f)),
        }
    } else {
        Err("Unknown rule_type '"@ + rule_type
            + "'. Must be one of: list, number_range, date_range, text_length, custom"@)
    }
}

/// The texts of optional list items.
pub open spec fn items_view(items: Option<Vec<String>>) -> Option<Seq<Seq<char>>> {
    match items {
        Some(v) => Some(v@.map_values(|s: String| s@)),
        None => None,
    }
}

/// The text of an optional formula.
pub open spec fn formula_view(formula: Option<String>) -> Option<Seq<char>> {
    match formula {
        Some(f) => Some(f@),
        None => None,
    }
}

/// Decides the kind of validation rule (see [`validation_kind_spec`]).
pub fn validation_kind(rule_type: &str, list_items: Option<Vec<String>>, formula: Option<String>) -> (r: Result<ValidationKind, String>)
    ensures
        match validation_kind_spec(rule_type@, items_view(list_items), formula_view(formula)) {
            Ok(k) => r matches Ok(v) && kind_view(v) == k,
            Err(m) => r matches Err(e) && e@ == m,
        },
{
    let t = chars_of(rule_type);
    if same_chars(&t, &chars_of("list")) {
        match list_items {
            None => Err(String::from_str("list_items is required for rule_type 'list'")),
            Some(items) => {
                if items.len() == 0 {
                    Err(String::from_str("list_items must not be empty"))
                } else {
                    Ok(ValidationKind::List(items))
                }
            },
        }
    } else if same_chars(&t, &chars_of("number_range")) {
        Ok(ValidationKind::NumberRange)
    } else if same_chars(&t, &chars_of("date_range")) {
        Ok(ValidationKind::DateRange)
    } else if same_chars(&t, &chars_of("text_length")) {
        Ok(ValidationKind::TextLength)
    } else if same_chars(&t, &chars_of("custom")) {
        match formula {
            None => Err(String::from_str("formula is required for rule_type 'custom'")),
            Some(f) => Ok(ValidationKind::Custom(f)),
        }
    } else {
        let mut m = String::from_str("Unknown rule_type '");
        m.append(rule_type);
        m.append("'. Must be one of: list, number_range, date_range, text_length, custom");
        Err(m)
    }
}

} // verus!
