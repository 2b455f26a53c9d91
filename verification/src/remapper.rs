//! Where a remapped jar is written.
use crate::text::{is_suffix, join_path, joined_path};
use vstd::prelude::*;
use vstd::string::{StrSliceExecFns, StringExecFns};

verus! {

/// The name of the remapped copy of a jar: `.jar` replaced by `-remapped.jar`.
pub open spec fn remapped_name(name: Seq<char>) -> Seq<char> {
    name.subrange(0, name.len() - 4) + "-remapped.jar"@
}

/// The name of the remapped copy of the jar `name`, which ends with `.jar`.
pub fn remapped_file_name(name: &str) -> (r: String)
    requires
        is_suffix(".jar"@, name@),
    ensures
        r@ == remapped_name(name@),
{
    proof {
        reveal_strlit(".jar");
    }
    let n = name.unicode_len();
    let mut r = String::from_str(name.substring_char(0, n - 4));
    r.append("-remapped.jar");
    r
}

/// Where the remapped copy of the jar `input_file_name` goes when the output
/// given is `canonical_path` (already made absolute): into that directory
/// under the remapped name when it is one, else next to it, as the given
/// jar's remapped name.
pub fn build_output_file_name(input_file_name: &str, canonical_path: &str, is_dir: bool) -> (r: String)
    requires
        is_dir ==> is_suffix(".jar"@, input_file_name@),
        !is_dir ==> is_suffix(".jar"@, canonical_path@),
    ensures
        r@ == if is_dir {
            joined_path(canonical_path@, remapped_name(input_file_name@))
        } else {
            remapped_name(canonical_path@)
        },
{
    if is_dir {
        let name = remapped_file_name(input_file_name);
        join_path(canonical_path, name.as_str())
    } else {
        remapped_file_name(canonical_path)
    }
}

/// Where the remapped copy of an input jar is written.
#[derive(Debug, Clone, PartialEq, Eq)]
pub enum OutputTarget {
    /// Under its remapped name, in the working directory.
    WorkingDirectory,
    /// As [`build_output_file_name`] makes it from this output path.
    Under(String),
    /// Under its remapped name, in the directory that holds the input jar: the
    /// outputs given are not one per input.
    BesideInputJar,
}

/// Where the remapped copy of the input at position `input_index` goes, for
/// the outputs given and the number of inputs: with no output, in the working
/// directory; with one output per input, from the output at the input's own
/// position; otherwise next to the input jar.
pub fn output_target(output: &Option<Vec<String>>, inputs_count: usize, input_index: usize) -> (r: OutputTarget)
    requires
        input_index < inputs_count,
    ensures
        match output {
            None => r == OutputTarget::WorkingDirectory,
            Some(v) => if v.len() == inputs_count {
                r matches OutputTarget::Under(p) && p@ == v@[input_index as int]@
            } else {
                r == OutputTarget::BesideInputJar
            },
        },
{
    match output {
        None => OutputTarget::WorkingDirectory,
        Some(v) => {
            if v.len() == inputs_count {
                OutputTarget::Under(v[input_index].clone())
            } else {
                OutputTarget::BesideInputJar
            }
        },
    }
}

} // verus!
