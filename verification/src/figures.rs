//! Naming new figures and referring to them from a document.

use vstd::prelude::*;
use vstd::string::*;

use crate::watch::{figure_stem, file_stem, is_figure_path};

verus! {

/// The lower-case form of a text, as the standard library gives it.
pub uninterp spec fn lowercase_of(text: Seq<char>) -> Seq<char>;

/// `str::to_lowercase`: the result is the lower-case form of the argument
/// and depends on nothing else.
#[verifier::external_body]
fn lowercase(text: &str) -> (lowered: String)
    ensures
        lowered@ == lowercase_of(text@),
{
    text.to_lowercase()
}

/// `String::push`: the character is appended at the end.
#[verifier::external_body]
fn push_char(text: &mut String, c: char)
    ensures
        final(text)@ == old(text)@.push(c),
{
    text.push(c)
}

/// A text with a dash in place of every space.
pub open spec fn with_dashes(text: Seq<char>) -> Seq<char> {
    Seq::new(
        text.len(),
        |i: int|
            if text[i] == ' ' {
                '-'
            } else {
                text[i]
            },
    )
}

/// Puts a dash in place of every space.
pub fn dashed(text: &str) -> (out: String)
    ensures
        out@ == with_dashes(text@),
{
    let mut out = String::new();
    assert(out@ =~= with_dashes(text@.take(0)));
    for c in chars: text.chars()
        invariant
            chars.seq() == text@,
            out@ == with_dashes(text@.take(chars.index())),
    {
        let ghost before = out@;
        let ghost at = chars.index();
        push_char(
            &mut out,
            if c == ' ' {
                '-'
            } else {
                c
            },
        );
        assert(out@ =~= with_dashes(text@.take(at + 1)));
    }
    assert(text@.take(text@.len() as int) =~= text@);
    out
}

/// The file name made of a lower-cased title: dashes for spaces, and the
/// figure extension behind it.
pub open spec fn formatted_name(lowered: Seq<char>) -> Seq<char> {
    with_dashes(lowered) + ".svg"@
}

/// Makes the file name of a lower-cased title.
pub fn format_name(lowered: &str) -> (name: String)
    ensures
        name@ == formatted_name(lowered@),
{
    dashed(lowered).concat(".svg")
}

/// A name placed in a directory; an empty directory leaves the name as it
/// is.
pub open spec fn placed_in(directory: Seq<char>, name: Seq<char>) -> Seq<char> {
    if directory.len() == 0 {
        name
    } else {
        directory + "/"@ + name
    }
}

/// Places a name in a directory.
pub fn place_in(directory: &str, name: String) -> (path: String)
    ensures
        path@ == placed_in(directory@, name@),
{
    if directory.unicode_len() == 0 {
        name
    } else {
        String::from_str(directory).concat("/").concat(name.as_str())
    }
}

/// The path of a new figure. Where formatting is asked for, the name is
/// lower-cased, gets dashes for spaces and the figure extension; then the
/// directory, if there is one, is put in front.
pub open spec fn figure_path_text(name: Seq<char>, format: bool, directory: Seq<char>) -> Seq<
    char,
> {
    placed_in(
        directory,
        if format {
            formatted_name(lowercase_of(name))
        } else {
            name
        },
    )
}

/// Makes the path of a new figure.
pub fn figure_path(name: &str, format: bool, directory: &str) -> (path: String)
    ensures
        path@ == figure_path_text(name@, format, directory@),
{
    let file = if format {
        format_name(lowercase(name).as_str())
    } else {
        String::from_str(name)
    };
    place_in(directory, file)
}

/// The LaTeX lines that include a figure: its path without extension as
/// the figure to include, its stem as the label.
pub open spec fn latex_template_text(path: Seq<char>) -> Seq<char>
    recommends
        is_figure_path(path),
{
    "\\begin{marginfigure}\n    \\centering\n    \\incfig{"@ + path.subrange(0, path.len() - 4)
        + "}\n    \\caption{}\n    \\label{fig:"@ + figure_stem(path) + "}\n\\end{marginfigure}"@
}

/// The LaTeX lines for a figure; nothing for a path that names no figure.
pub fn latex_template(path: &str) -> (lines: Option<String>)
    ensures
        lines is Some <==> is_figure_path(path@),
        lines matches Some(text) ==> text@ == latex_template_text(path@),
{
    match file_stem(path) {
        None => None,
        Some(stem) => {
            let len = path.unicode_len();
            Some(
                String::from_str("\\begin{marginfigure}\n    \\centering\n    \\incfig{").concat(
                    path.substring_char(0, len - 4),
                ).concat("}\n    \\caption{}\n    \\label{fig:").concat(stem.as_str()).concat(
                    "}\n\\end{marginfigure}",
                ),
            )
        },
    }
}

/// Where the template of new figures lies below a home directory.
pub open spec fn template_path_text(home: Seq<char>) -> Seq<char> {
    if home.len() == 0 || home.last() == '/' {
        home + ".config/ifm/template.svg"@
    } else {
        home + "/"@ + ".config/ifm/template.svg"@
    }
}

/// The template's path below `home`.
pub fn template_path(home: &str) -> (path: String)
    ensures
        path@ == template_path_text(home@),
{
    let len = home.unicode_len();
    if len == 0 || home.get_char(len - 1) == '/' {
        String::from_str(home).concat(".config/ifm/template.svg")
    } else {
        String::from_str(home).concat("/").concat(".config/ifm/template.svg")
    }
}

} // verus!
