//! Expanding the placeholders of a playlist-name template.
use crate::text::{chars_of, concat_text, replace_all, replaced, string_of};
use vstd::prelude::*;

verus! {

/// `template` with its placeholders expanded: `${folder_name}` by
/// `folder_name`, `${path_to_parent}` by `path_to_parent`, and
/// `${relative_path}` by `path_to_parent` followed by `folder_name`. The three
/// are expanded one after the other, in this order.
pub open spec fn expanded(
    template: Seq<char>,
    folder_name: Seq<char>,
    path_to_parent: Seq<char>,
) -> Seq<char> {
    replaced(
        replaced(
            replaced(template, "${folder_name}"@, folder_name),
            "${path_to_parent}"@,
            path_to_parent,
        ),
        "${relative_path}"@,
        path_to_parent + folder_name,
    )
}

/// Expands the placeholders of a template given as characters.
pub fn expand_chars(template: &Vec<char>, folder_name: &Vec<char>, path_to_parent: &Vec<char>) -> (r:
    Vec<char>)
    ensures
        r@ == expanded(template@, folder_name@, path_to_parent@),
{
    let full_path = concat_text(path_to_parent, folder_name);
    let a = replace_all(template, &chars_of("${folder_name}"), folder_name);
    let b = replace_all(&a, &chars_of("${path_to_parent}"), path_to_parent);
    replace_all(&b, &chars_of("${relative_path}"), &full_path)
}

/// Expands the placeholders of `template`.
pub fn expand_template(template: &str, folder_name: &str, path_to_parent: &str) -> (r: String)
    ensures
        r@ == expanded(template@, folder_name@, path_to_parent@),
{
    let r = expand_chars(&chars_of(template), &chars_of(folder_name), &chars_of(path_to_parent));
    string_of(&r)
}

} // verus!
