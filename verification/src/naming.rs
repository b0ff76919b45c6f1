//! Entries, asset references and the names of the files they are stored under.
//!
//! The file an entry is stored under is a function of the output directory
//! and the entry alone. A second run over the same index therefore looks for
//! each file exactly where the first run put it, which is what makes
//! "skip what already exists" a sound way to resume.

use crate::text::{chars_end_with, concatenate, ends_with, from_chars, to_chars};
use vstd::prelude::*;

verus! {

/// One item discovered on the index page.
#[derive(Clone, Debug, PartialEq, Eq)]
pub struct Entry {
    /// The entry page's path as written on the index, such as `ap200101.html`.
    pub relative_path: String,
    /// The label of the link on the index.
    pub title: String,
}

/// The mathematical content of an [`Entry`].
pub struct EntryView {
    pub relative_path: Seq<char>,
    pub title: Seq<char>,
}

impl View for Entry {
    type V = EntryView;

    open spec fn view(&self) -> EntryView {
        EntryView { relative_path: self.relative_path@, title: self.title@ }
    }
}

/// The downloadable image that an entry page points to.
#[derive(Clone, Debug, PartialEq, Eq)]
pub struct AssetReference {
    /// The fully qualified location of the image.
    pub absolute_url: String,
}

impl View for AssetReference {
    type V = Seq<char>;

    open spec fn view(&self) -> Seq<char> {
        self.absolute_url@
    }
}

/// The views of a sequence of entries.
pub open spec fn entry_views(entries: Seq<Entry>) -> Seq<EntryView> {
    entries.map_values(|e: Entry| e@)
}

/// Whether `c` separates the components of a path.
pub open spec fn is_separator(c: char) -> bool {
    c == '/' || c == '\\'
}

/// The test that a character passes when it may stay in a file name.
pub open spec fn stays_in_name() -> spec_fn(char) -> bool {
    |c: char| !is_separator(c)
}

/// `.html`
pub open spec fn html_extension() -> Seq<char> {
    seq!['.', 'h', 't', 'm', 'l']
}

/// `.htm`
pub open spec fn htm_extension() -> Seq<char> {
    seq!['.', 'h', 't', 'm']
}

/// ` - `, which stands between the two parts of a file name.
pub open spec fn name_separator() -> Seq<char> {
    seq![' ', '-', ' ']
}

/// `.jpg`
pub open spec fn image_extension() -> Seq<char> {
    seq!['.', 'j', 'p', 'g']
}

/// `s` with every path separator taken out.
pub open spec fn without_separators(s: Seq<char>) -> Seq<char> {
    s.filter(stays_in_name())
}

/// `s` without one trailing `.html` or `.htm`, where it has one.
pub open spec fn without_page_extension(s: Seq<char>) -> Seq<char> {
    if ends_with(s, html_extension()) {
        s.take(s.len() - 5)
    } else if ends_with(s, htm_extension()) {
        s.take(s.len() - 4)
    } else {
        s
    }
}

/// `s` made safe for use inside a file name: path separators are taken
/// out, then one trailing page extension.
pub open spec fn sanitized(s: Seq<char>) -> Seq<char> {
    without_page_extension(without_separators(s))
}

/// The name of the file an entry is stored under:
/// the sanitized path without its page extension, ` - `, the sanitized
/// title, `.jpg`.
pub open spec fn file_name(e: EntryView) -> Seq<char> {
    sanitized(without_page_extension(e.relative_path)) + name_separator() + sanitized(e.title)
        + image_extension()
}

/// `name` placed in `directory`. An empty directory gives the bare name and
/// a directory that ends in `/` gets no second one.
pub open spec fn joined(directory: Seq<char>, name: Seq<char>) -> Seq<char> {
    if directory.len() == 0 {
        name
    } else if directory.last() == '/' {
        directory + name
    } else {
        directory + seq!['/'] + name
    }
}

/// Where the image of entry `e` is stored under `directory`.
pub open spec fn destination(directory: Seq<char>, e: EntryView) -> Seq<char> {
    joined(directory, file_name(e))
}

/// The location that `relative` names when read against `base`.
pub open spec fn resolved(base: Seq<char>, relative: Seq<char>) -> Seq<char> {
    base + relative
}

/// Takes every path separator out of `chars`.
pub fn strip_separators(chars: &Vec<char>) -> (r: Vec<char>)
    ensures
        r@ == without_separators(chars@),
{
    let mut out: Vec<char> = Vec::new();
    let mut i: usize = 0;
    proof {
        reveal(Seq::filter);
    }
    while i < chars.len()
        invariant
            i <= chars.len(),
            out@ == chars@.take(i as int).filter(stays_in_name()),
        decreases chars.len() - i,
    {
        let c = chars[i];
        proof {
            assert(chars@.take(i + 1) =~= chars@.take(i as int).push(c));
            chars@.take(i as int).lemma_filter_push(c, stays_in_name());
        }
        if c != '/' && c != '\\' {
            out.push(c);
        }
        i += 1;
    }
    assert(chars@.take(chars.len() as int) =~= chars@);
    out
}

/// Takes one trailing `.html` or `.htm` off `chars`, where there is one.
pub fn strip_page_extension(chars: Vec<char>) -> (r: Vec<char>)
    ensures
        r@ == without_page_extension(chars@),
{
    let html: Vec<char> = vec!['.', 'h', 't', 'm', 'l'];
    let htm: Vec<char> = vec!['.', 'h', 't', 'm'];
    let mut out = chars;
    if chars_end_with(&out, &html) {
        let keep: usize = out.len() - 5;
        out.truncate(keep);
    } else if chars_end_with(&out, &htm) {
        let keep: usize = out.len() - 4;
        out.truncate(keep);
    }
    out
}

/// Makes `s` safe for use inside a file name.
pub fn sanitize(s: &str) -> (r: String)
    ensures
        r@ == sanitized(s@),
{
    let chars = to_chars(s);
    let kept = strip_separators(&chars);
    let stem = strip_page_extension(kept);
    from_chars(&stem)
}

/// Places the file name `name` in `directory`.
pub fn join_path(directory: &str, name: &str) -> (r: String)
    ensures
        r@ == joined(directory@, name@),
{
    let chars = to_chars(directory);
    if chars.len() == 0 {
        name.to_owned()
    } else if chars[chars.len() - 1] == '/' {
        concatenate(directory, name)
    } else {
        proof {
            reveal_strlit("/");
        }
        let mut out = concatenate(directory, "/");
        out.append(name);
        out
    }
}

impl Entry {
    /// The location of this entry's page: `base_url` followed by the
    /// entry's relative path.
    pub fn url(&self, base_url: &str) -> (r: String)
        ensures
            r@ == resolved(base_url@, self@.relative_path),
    {
        concatenate(base_url, self.relative_path.as_str())
    }

    /// The name of the file this entry is stored under.
    pub fn file_name(&self) -> (r: String)
        ensures
            r@ == file_name(self@),
    {
        let path = to_chars(self.relative_path.as_str());
        let stem = from_chars(&strip_page_extension(path));
        let mut out = sanitize(stem.as_str());
        let title = sanitize(self.title.as_str());
        proof {
            reveal_strlit(" - ");
            reveal_strlit(".jpg");
        }
        out.append(" - ");
        out.append(title.as_str());
        out.append(".jpg");
        out
    }
}

impl AssetReference {
    /// A second reference to the same image.
    pub fn duplicate(&self) -> (r: AssetReference)
        ensures
            r@ == self@,
    {
        AssetReference { absolute_url: self.absolute_url.clone() }
    }

    /// The asset that the link target `target` names on a page served
    /// under `base_url`.
    pub fn resolve(base_url: &str, target: &str) -> (r: AssetReference)
        ensures
            r@ == resolved(base_url@, target@),
    {
        AssetReference { absolute_url: concatenate(base_url, target) }
    }
}

/// Computes where the image of `entry` is stored under `directory`.
///
/// The result depends on the directory and the entry and on nothing else:
/// every run, under every concurrency budget, names the same file.
pub fn destination_path(directory: &str, entry: &Entry) -> (r: String)
    ensures
        r@ == destination(directory@, entry@),
{
    let name = entry.file_name();
    join_path(directory, name.as_str())
}

/// Sanitizing leaves no path separator behind.
pub proof fn lemma_sanitized_has_no_separator(s: Seq<char>)
    ensures
        forall|i: int| 0 <= i < sanitized(s).len() ==> !is_separator(#[trigger] sanitized(s)[i]),
{
    assert forall|i: int| 0 <= i < sanitized(s).len() implies !is_separator(
        #[trigger] sanitized(s)[i],
    ) by {
        s.lemma_filter_pred(stays_in_name(), i);
    }
}

/// A file name holds no path separator, so the file it names lies in the
/// directory it is joined to and nowhere else.
pub proof fn lemma_file_name_has_no_separator(e: EntryView)
    ensures
        forall|i: int| 0 <= i < file_name(e).len() ==> !is_separator(#[trigger] file_name(e)[i]),
{
    lemma_sanitized_has_no_separator(without_page_extension(e.relative_path));
    lemma_sanitized_has_no_separator(e.title);
}

/// Text that holds neither a path separator nor a trailing page extension
/// is its own sanitized form.
pub proof fn lemma_sanitized_keeps_clean_text(s: Seq<char>)
    requires
        forall|i: int| 0 <= i < s.len() ==> !is_separator(#[trigger] s[i]),
        !ends_with(s, html_extension()),
        !ends_with(s, htm_extension()),
    ensures
        sanitized(s) == s,
{
    lemma_filter_keeps_all(s);
}

/// Taking the separators out of text that holds none changes nothing.
pub proof fn lemma_filter_keeps_all(s: Seq<char>)
    requires
        forall|i: int| 0 <= i < s.len() ==> !is_separator(#[trigger] s[i]),
    ensures
        without_separators(s) == s,
    decreases s.len(),
{
    reveal(Seq::filter);
    if s.len() > 0 {
        lemma_filter_keeps_all(s.drop_last());
    }
}

} // verus!
