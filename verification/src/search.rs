//! The interactive search listing: the one-line-per-snippet input handed
//! to the fuzzy picker, and the reading of its selection. The picker
//! itself runs outside this crate.
use vstd::prelude::*;

use crate::snippet::Snippet;
use crate::snippet::SnippetView;
use crate::text::replace_all;
use crate::text::replace_all_str;
use crate::text::before_char;
use crate::text::lemma_before_char_at;
use crate::text::trim_spec;
use crate::text::trim;
use crate::text::str_eq;
use vstd::string::StringExecFns;
use vstd::string::StrSliceExecFns;

verus! {

/// The one-line preview of a snippet's content: line breaks read as
/// spaces, cut to `max_chars` characters with an ellipsis when longer.
pub open spec fn search_preview_spec(content: Seq<char>, max_chars: int) -> Seq<char> {
    let flat = replace_all(content, "\n"@, " "@);
    if flat.len() > max_chars {
        flat.take(max_chars) + "..."@
    } else {
        flat
    }
}

/// Renders the one-line preview of a snippet's content.
pub fn preview_content(content: &str, max_chars: usize) -> (r: String)
    ensures
        r@ == search_preview_spec(content@, max_chars as int),
{
    proof {
        reveal_strlit("\n");
    }
    let flat = replace_all_str(content, "\n", " ");
    let n = flat.as_str().unicode_len();
    if n > max_chars {
        let mut out = String::from_str(flat.as_str().substring_char(0, max_chars));
        out.append("...");
        proof {
            assert(flat@.subrange(0, max_chars as int) =~= flat@.take(max_chars as int));
        }
        out
    } else {
        flat
    }
}

/// The separator between a snippet's name and its preview in the picker
/// input.
pub open spec fn picker_separator() -> Seq<char> {
    "\u{25aa}"@
}

/// One picker line per snippet: the name, the separator, and the preview
/// with any remaining line break drawn as a vertical bar.
pub open spec fn search_input_spec(views: Seq<SnippetView>) -> Seq<char>
    decreases views.len(),
{
    if views.len() == 0 {
        Seq::empty()
    } else {
        views[0].name + picker_separator() + replace_all(
            search_preview_spec(views[0].content, 50),
            "\n"@,
            " \u{2502} "@,
        ) + "\n"@ + search_input_spec(views.drop_first())
    }
}

/// Renders the picker input, one line per snippet.
pub fn build_search_input(snippets: &Vec<Snippet>) -> (r: String)
    ensures
        r@ == search_input_spec(snippets.deep_view()),
{
    let n = snippets.len();
    let mut out = String::new();
    let mut i: usize = 0;
    proof {
        assert(snippets.deep_view().subrange(0, n as int) =~= snippets.deep_view());
    }
    while i < n
        invariant
            i <= n,
            n == snippets.len(),
            out@ + search_input_spec(snippets.deep_view().subrange(i as int, n as int))
                == search_input_spec(snippets.deep_view()),
        decreases n - i,
    {
        let ghost tail = snippets.deep_view().subrange(i as int, n as int);
        let ghost old_out = out@;
        proof {
            assert(tail[0] == snippets.deep_view()[i as int]);
            assert(tail.drop_first() =~= snippets.deep_view().subrange(i + 1, n as int));
            reveal_strlit("\n");
        }
        let preview = preview_content(snippets[i].content.as_str(), 50);
        let drawn = replace_all_str(preview.as_str(), "\n", " \u{2502} ");
        out.append(snippets[i].name.as_str());
        out.append("\u{25aa}");
        out.append(drawn.as_str());
        out.append("\n");
        proof {
            assert(out@ =~= old_out + (tail[0].name + picker_separator() + drawn@ + "\n"@));
            assert(out@ + search_input_spec(tail.drop_first()) =~= old_out + search_input_spec(
                tail,
            ));
        }
        i += 1;
    }
    proof {
        assert(snippets.deep_view().subrange(n as int, n as int) =~= Seq::<SnippetView>::empty());
        assert(out@ + Seq::<char>::empty() =~= out@);
    }
    out
}

/// The snippet name encoded in a picker selection: everything before the
/// separator, trimmed.
pub fn selection_name(selection: &str) -> (r: String)
    ensures
        r@ == trim_spec(before_char(selection@, '\u{25aa}')),
{
    let len = selection.unicode_len();
    let mut k: usize = 0;
    while k < len && selection.get_char(k) != '\u{25aa}'
        invariant
            k <= len,
            len == selection@.len(),
            forall|j: int| 0 <= j < k ==> selection@[j] != '\u{25aa}',
        decreases len - k,
    {
        k += 1;
    }
    proof {
        lemma_before_char_at(selection@, '\u{25aa}', k as int);
    }
    trim(selection.substring_char(0, k))
}

/// The earliest snippet with exactly the given name, if any.
pub fn find_by_name(snippets: &Vec<Snippet>, name: &str) -> (r: Option<usize>)
    ensures
        match r {
            Some(i) => {
                &&& i < snippets.len()
                &&& snippets.deep_view()[i as int].name == name@
                &&& forall|j: int| 0 <= j < i ==> snippets.deep_view()[j].name != name@
            },
            None => forall|j: int|
                0 <= j < snippets.len() ==> snippets.deep_view()[j].name != name@,
        },
{
    let n = snippets.len();
    let mut i: usize = 0;
    while i < n
        invariant
            i <= n,
            n == snippets.len(),
            forall|j: int| 0 <= j < i ==> snippets.deep_view()[j].name != name@,
        decreases n - i,
    {
        if str_eq(snippets[i].name.as_str(), name) {
            return Some(i);
        }
        i += 1;
    }
    None
}

} // verus!
