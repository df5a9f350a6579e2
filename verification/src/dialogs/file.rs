//! The filters that the file dialogs offer.
use crate::text::opt_view;
use crate::text::push_str;
use crate::text::string_from_chars;
use crate::text::strings_view;
use vstd::prelude::*;

verus! {

/// What `str::to_uppercase` gives for a string: each character replaced by its
/// uppercase mapping, which Unicode's tables define.
pub uninterp spec fn uppercase_of(s: Seq<char>) -> Seq<char>;

/// The ASCII uppercase of a character: `a` to `z` become `A` to `Z`, every other
/// character stays as it is.
pub open spec fn ascii_upper(c: char) -> char {
    if 'a' <= c && c <= 'z' {
        ((c as u32) - 32) as char
    } else {
        c
    }
}

/// Every character of `s` is ASCII.
pub open spec fn is_ascii(s: Seq<char>) -> bool {
    forall|i: int| 0 <= i < s.len() ==> (#[trigger] s[i] as u32) < 128
}

/// `str::to_uppercase`: the string with every character mapped to uppercase by
/// Unicode's tables. The contract names the result; of an ASCII string it also says
/// that each character becomes its ASCII uppercase (Unicode maps `a` to `z` onto `A` to
/// `Z` and leaves the other ASCII characters as they are). Of other characters it says
/// nothing.
#[verifier::external_body]
fn to_uppercase(s: &str) -> (r: String)
    ensures
        r@ == uppercase_of(s@),
        is_ascii(s@) ==> r@ == s@.map_values(|c: char| ascii_upper(c)),
{
    s.to_uppercase()
}

/// A filter of a file dialog: the text shown for it, and the extensions it lets through.
#[derive(Clone, Debug, PartialEq, Eq)]
pub struct FileFilter {
    pub name: String,
    pub extensions: Vec<String>,
}

/// The description of a file type: the one given, or else the extension in capitals
/// followed by " files".
pub open spec fn type_description(description: Option<Seq<char>>, extension: Seq<char>) -> Seq<char> {
    match description {
        Some(d) => d,
        None => uppercase_of(extension) + " files"@,
    }
}

/// The text of a file type's filter: its description, then the pattern in parentheses.
pub open spec fn filter_name(description: Option<Seq<char>>, extension: Seq<char>) -> Seq<char> {
    type_description(description, extension) + " (*."@ + extension + ")"@
}

/// The filters for `file_types` (each an optional description and an extension), in
/// order, followed by one that lets every file through.
pub fn file_dialog_filters(file_types: &Vec<(Option<String>, String)>) -> (r: Vec<FileFilter>)
    ensures
        r.len() == file_types.len() + 1,
        forall|k: int|
            0 <= k < file_types.len() ==> (#[trigger] r@[k]).name@ == filter_name(
                opt_view(file_types@[k].0),
                file_types@[k].1@,
            ) && strings_view(r@[k].extensions@) == seq![file_types@[k].1@],
        forall|k: int|
            0 <= k < file_types.len() && (#[trigger] file_types@[k]).0 is None && is_ascii(file_types@[k].1@)
                ==> r@[k].name@ == file_types@[k].1@.map_values(|c: char| ascii_upper(c)) + " files"@ + " (*."@
                + file_types@[k].1@ + ")"@,
        r@[file_types.len() as int].name@ == "All Files (*.*)"@,
        strings_view(r@[file_types.len() as int].extensions@) == seq!["*"@],
{
    let mut filters: Vec<FileFilter> = Vec::new();
    let mut k: usize = 0;
    while k < file_types.len()
        invariant
            k <= file_types.len(),
            filters.len() == k,
            forall|j: int|
                0 <= j < k ==> (#[trigger] filters@[j]).name@ == filter_name(
                    opt_view(file_types@[j].0),
                    file_types@[j].1@,
                ) && strings_view(filters@[j].extensions@) == seq![file_types@[j].1@],
            forall|j: int|
                0 <= j < k && (#[trigger] file_types@[j]).0 is None && is_ascii(file_types@[j].1@)
                    ==> filters@[j].name@ == file_types@[j].1@.map_values(|c: char| ascii_upper(c))
                    + " files"@ + " (*."@ + file_types@[j].1@ + ")"@,
        decreases file_types.len() - k,
    {
        let (description, extension) = (&file_types[k].0, &file_types[k].1);
        let mut name: Vec<char> = Vec::new();
        match description {
            Some(d) => push_str(&mut name, d.as_str()),
            None => {
                let upper = to_uppercase(extension.as_str());
                assert(is_ascii(extension@) ==> upper@ == extension@.map_values(|c: char| ascii_upper(c)));
                push_str(&mut name, upper.as_str());
                push_str(&mut name, " files");
            },
        }
        push_str(&mut name, " (*.");
        push_str(&mut name, extension.as_str());
        push_str(&mut name, ")");
        let extensions = vec![extension.clone()];
        proof {
            assert(name@ =~= filter_name(opt_view(file_types@[k as int].0), file_types@[k as int].1@));
            if file_types@[k as int].0 is None && is_ascii(file_types@[k as int].1@) {
                assert(name@ =~= file_types@[k as int].1@.map_values(|c: char| ascii_upper(c)) + " files"@ + " (*."@
                    + file_types@[k as int].1@ + ")"@);
            }
            assert(strings_view(extensions@) =~= seq![file_types@[k as int].1@]);
        }
        filters.push(FileFilter { name: string_from_chars(&name), extensions });
        k = k + 1;
    }
    let mut all: Vec<char> = Vec::new();
    push_str(&mut all, "All Files (*.*)");
    let extensions = vec!["*".to_string()];
    proof {
        assert(all@ =~= "All Files (*.*)"@);
        assert(strings_view(extensions@) =~= seq!["*"@]);
    }
    filters.push(FileFilter { name: string_from_chars(&all), extensions });
    filters
}

} // verus!
