//! Small helpers of the interface: message lookup and optional lists.
use vstd::prelude::*;
use vstd::string::{StrSliceExecFns, StringExecFns};

verus! {

/// The text shown for a message key; every key is its own text.
pub fn localize(key: &str) -> (r: &str)
    ensures
        r@ == key@,
{
    key
}

/// Whether an optional list is missing or empty.
pub fn is_empty_or_none<T>(vec: &Option<Vec<T>>) -> (r: bool)
    ensures
        r == match vec {
            Some(v) => v@.len() == 0,
            None => true,
        },
{
    if let Some(vec) = vec {
        return vec.len() == 0;
    }
    true
}

/// The last text of a list, or the empty text when the list is empty.
pub open spec fn last_or_empty(v: Seq<String>) -> Seq<char> {
    if v.len() == 0 {
        Seq::empty()
    } else {
        v.last()@
    }
}

/// Whether the editor of extra mappings needs a new blank row: when it has no
/// row, or when both the last key and the last value are filled in.
pub open spec fn needs_blank_row(keys: Seq<String>, values: Seq<String>) -> bool {
    keys.len() == 0 || (last_or_empty(keys).len() > 0 && last_or_empty(values).len() > 0)
}

/// Adds a blank key and a blank value to the rows of the extra-mappings editor
/// when it needs one, so that there is always a row to type into.
pub fn ensure_blank_extra_row(keys: &mut Vec<String>, values: &mut Vec<String>)
    ensures
        if needs_blank_row(old(keys)@, old(values)@) {
            &&& final(keys)@.len() == old(keys)@.len() + 1
            &&& final(keys)@.drop_last() == old(keys)@
            &&& final(keys)@.last()@ == Seq::<char>::empty()
            &&& final(values)@.len() == old(values)@.len() + 1
            &&& final(values)@.drop_last() == old(values)@
            &&& final(values)@.last()@ == Seq::<char>::empty()
        } else {
            final(keys)@ == old(keys)@ && final(values)@ == old(values)@
        },
{
    let last_key_filled = keys.len() > 0 && keys[keys.len() - 1].as_str().unicode_len() > 0;
    let last_value_filled = values.len() > 0 && values[values.len() - 1].as_str().unicode_len() > 0;
    if keys.len() == 0 || (last_key_filled && last_value_filled) {
        let k = String::new();
        let v = String::new();
        keys.push(k);
        values.push(v);
        proof {
            assert(keys@.drop_last() =~= old(keys)@);
            assert(values@.drop_last() =~= old(values)@);
        }
    }
}

/// The extra mappings source for a picked file: the prefix followed by the
/// file's path, or none when no file was picked.
pub open spec fn picked_file_source(prefix: Seq<char>, path: Option<String>) -> Seq<Seq<char>> {
    match path {
        Some(p) => seq![prefix + p@],
        None => Seq::empty(),
    }
}

/// Appends the source for a picked file, if any.
fn push_picked_file_source(out: &mut Vec<String>, prefix: &str, path: Option<String>)
    ensures
        final(out)@.map_values(|s: String| s@) == old(out)@.map_values(|s: String| s@) + picked_file_source(prefix@, path),
{
    let ghost before = out@.map_values(|s: String| s@);
    match path {
        Some(p) => {
            let mut source = String::from_str(prefix);
            source.append(p.as_str());
            out.push(source);
            assert(out@.map_values(|s: String| s@) =~= before + seq![prefix@ + p@]);
        },
        None => {
            assert(before + Seq::<Seq<char>>::empty() =~= before);
        },
    }
}

/// The extra mappings sources for the mappings files picked in the interface:
/// `fields:file://`, `methods:file://` and `params:file://` followed by the
/// picked file's path, in that order, each only when a file was picked.
pub fn picked_files_as_extra_mappings(
    fields_file: Option<String>,
    methods_file: Option<String>,
    params_file: Option<String>,
) -> (r: Vec<String>)
    ensures
        r@.map_values(|s: String| s@) == picked_file_source("fields:file://"@, fields_file) + picked_file_source(
            "methods:file://"@,
            methods_file,
        ) + picked_file_source("params:file://"@, params_file),
{
    let mut out: Vec<String> = Vec::new();
    assert(out@.map_values(|s: String| s@) =~= Seq::<Seq<char>>::empty());
    push_picked_file_source(&mut out, "fields:file://", fields_file);
    push_picked_file_source(&mut out, "methods:file://", methods_file);
    push_picked_file_source(&mut out, "params:file://", params_file);
    assert(Seq::<Seq<char>>::empty() + picked_file_source("fields:file://"@, fields_file) =~= picked_file_source(
        "fields:file://"@,
        fields_file,
    ));
    out
}

} // verus!
