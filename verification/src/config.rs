//! The styler's view of the host's configuration document: a tree of tables
//! whose keys are strings and whose leaves are scalars. Styling reads only
//! string leaves and nested tables; every other shape degrades to "no class
//! configured".

use vstd::prelude::*;

verus! {

/// One value of the structured configuration document. `Other` stands for
/// any scalar kind the styler never reads (a date, a fractional number).
pub enum ConfValue {
    Str(String),
    Int(i64),
    Bool(bool),
    Table(Vec<(String, ConfValue)>),
    List(Vec<ConfValue>),
    Other,
}

/// The value of the first entry of `t` whose key equals `key`, if any.
pub open spec fn table_get(t: Seq<(String, ConfValue)>, key: Seq<char>) -> Option<ConfValue>
    decreases t.len(),
{
    if t.len() == 0 {
        None
    } else if t[0].0@ == key {
        Some(t[0].1)
    } else {
        table_get(t.skip(1), key)
    }
}

/// Looks a key up in a table, first matching entry wins.
pub fn table_get_exec<'a>(t: &'a Vec<(String, ConfValue)>, key: &str) -> (r: Option<
    &'a ConfValue,
>)
    ensures
        match r {
            Some(v) => table_get(t@, key@) == Some(*v),
            None => table_get(t@, key@) is None,
        },
{
    let mut i: usize = 0;
    proof {
        assert(t@.skip(0) =~= t@);
    }
    while i < t.len()
        invariant
            i <= t@.len(),
            table_get(t@, key@) == table_get(t@.skip(i as int), key@),
        decreases t@.len() - i,
    {
        proof {
            assert(t@.skip(i as int)[0] == t@[i as int]);
        }
        if crate::text::str_eq(t[i].0.as_str(), key) {
            return Some(&t[i].1);
        }
        proof {
            assert(t@.skip(i as int).skip(1) =~= t@.skip(i as int + 1));
        }
        i = i + 1;
    }
    None
}

/// The class configured for `selector`: present only when the table has a
/// table-valued entry under `selector` that in turn has a string-valued
/// entry under `class`.
pub open spec fn spec_class_for(t: Seq<(String, ConfValue)>, selector: Seq<char>) -> Option<
    Seq<char>,
> {
    match table_get(t, selector) {
        Some(ConfValue::Table(inner)) => match table_get(inner@, "class"@) {
            Some(ConfValue::Str(s)) => Some(s@),
            _ => None,
        },
        _ => None,
    }
}

/// Best-effort lookup of the style class for a selector: absent or malformed
/// entries yield `None`, never an error.
pub fn get_class_for<'a>(config: &'a Vec<(String, ConfValue)>, key: &str) -> (r: Option<
    &'a String,
>)
    ensures
        match r {
            Some(s) => spec_class_for(config@, key@) == Some(s@),
            None => spec_class_for(config@, key@) is None,
        },
{
    match table_get_exec(config, key) {
        Some(ConfValue::Table(inner)) => match table_get_exec(inner, "class") {
            Some(ConfValue::Str(s)) => Some(s),
            _ => None,
        },
        _ => None,
    }
}

} // verus!
