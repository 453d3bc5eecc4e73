use crate::schema::names::{first_piece, last_piece, spec_split};
use vstd::prelude::*;

verus! {

/// A language that code is generated for.
#[derive(Clone, Copy, Debug, PartialEq, Eq)]
pub enum Lang {
    Rust,
}

/// A bundled template: the name it is registered under, and the file that holds it.
#[derive(Debug)]
pub struct TemplateSource {
    pub name: String,
    pub file_name: String,
}

/// What a `TemplateSource` holds.
pub struct TemplateSourceView {
    pub name: Seq<char>,
    pub file_name: Seq<char>,
}

impl DeepView for TemplateSource {
    type V = TemplateSourceView;

    open spec fn deep_view(&self) -> TemplateSourceView {
        TemplateSourceView { name: self.name@, file_name: self.file_name@ }
    }
}

/// `pattern` stands somewhere in `text`.
pub open spec fn spec_contains(text: Seq<char>, pattern: Seq<char>) -> bool {
    exists|i: int|
        0 <= i <= text.len() - pattern.len() && #[trigger] text.subrange(i, i + pattern.len())
            == pattern
}

/// The part of a path that marks the templates of a language.
pub open spec fn spec_lang_directory(lang: Lang) -> Seq<char> {
    match lang {
        Lang::Rust => "/rust/"@,
    }
}

/// The name of the template in a file: the file's name without its directories, up to its
/// first dot.
pub open spec fn spec_template_name(file_name: Seq<char>) -> Seq<char> {
    spec_split(spec_split(file_name, '/').last(), '.')[0]
}

/// The templates of a language among the bundled files, in the order of the files.
pub open spec fn spec_templates(lang: Lang, file_names: Seq<Seq<char>>) -> Seq<
    TemplateSourceView,
>
    decreases file_names.len(),
{
    if file_names.len() == 0 {
        Seq::empty()
    } else {
        let before = spec_templates(lang, file_names.drop_last());
        let file_name = file_names.last();
        if spec_contains(file_name, spec_lang_directory(lang)) {
            before.push(
                TemplateSourceView { name: spec_template_name(file_name), file_name: file_name },
            )
        } else {
            before
        }
    }
}

fn matches_at(text: &str, pattern: &str, at: usize) -> (r: bool)
    requires
        at + pattern@.len() <= text@.len(),
        text@.len() <= usize::MAX,
    ensures
        r == (text@.subrange(at as int, at + pattern@.len()) == pattern@),
{
    let n = pattern.unicode_len();
    let mut j: usize = 0;
    while j < n
        invariant
            j <= n,
            n == pattern@.len(),
            at + n <= text@.len(),
            text@.len() <= usize::MAX,
            forall|k: int| 0 <= k < j ==> text@[at + k] == pattern@[k],
        decreases n - j,
    {
        if text.get_char(at + j) != pattern.get_char(j) {
            assert(text@.subrange(at as int, at + n)[j as int] != pattern@[j as int]);
            return false;
        }
        j += 1;
    }
    assert(text@.subrange(at as int, at + n) =~= pattern@);
    true
}

/// Tells whether `pattern` stands somewhere in `text`.
pub fn contains(text: &str, pattern: &str) -> (r: bool)
    ensures
        r == spec_contains(text@, pattern@),
{
    let len = text.unicode_len();
    let n = pattern.unicode_len();
    if n > len {
        return false;
    }
    let mut i: usize = 0;
    while i < len - n
        invariant
            n <= len,
            len == text@.len(),
            n == pattern@.len(),
            i <= len - n,
            forall|k: int| 0 <= k < i ==> #[trigger] text@.subrange(k, k + n) != pattern@,
        decreases len - n - i,
    {
        if matches_at(text, pattern, i) {
            return true;
        }
        i += 1;
    }
    matches_at(text, pattern, i)
}

/// The part of a path that marks the templates of a language.
pub fn lang_directory(lang: Lang) -> (directory: &'static str)
    ensures
        directory@ == spec_lang_directory(lang),
{
    match lang {
        Lang::Rust => "/rust/",
    }
}

/// The name under which the template in a file is registered.
pub fn template_name(file_name: &str) -> (name: &str)
    ensures
        name@ == spec_template_name(file_name@),
{
    first_piece(last_piece(file_name, '/'), '.')
}

/// Picks the templates of a language among the bundled files and names each.
pub fn templates(lang: Lang, file_names: &Vec<String>) -> (found: Vec<TemplateSource>)
    ensures
        found.deep_view() == spec_templates(lang, file_names.deep_view()),
{
    let mut found: Vec<TemplateSource> = Vec::new();
    let mut i: usize = 0;
    assert(found.deep_view() =~= Seq::<TemplateSourceView>::empty());
    assert(file_names.deep_view().subrange(0, 0) =~= Seq::<Seq<char>>::empty());
    while i < file_names.len()
        invariant
            i <= file_names@.len(),
            found.deep_view() == spec_templates(lang, file_names.deep_view().subrange(0, i as int)),
        decreases file_names@.len() - i,
    {
        let file_name = file_names[i].as_str();
        proof {
            let next = file_names.deep_view().subrange(0, i + 1);
            assert(next.drop_last() =~= file_names.deep_view().subrange(0, i as int));
            assert(next.last() == file_name@);
        }
        if contains(file_name, lang_directory(lang)) {
            let ghost before = found.deep_view();
            let source = TemplateSource {
                name: template_name(file_name).to_owned(),
                file_name: file_name.to_owned(),
            };
            found.push(source);
            assert(found.deep_view() =~= before.push(source.deep_view()));
        }
        i += 1;
    }
    assert(file_names.deep_view().subrange(0, i as int) =~= file_names.deep_view());
    found
}

} // verus!
