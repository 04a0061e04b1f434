//! Installing a snippet into a target document: where the document lives,
//! how the snippet's content is appended to it, and the short preview
//! shown before confirmation.
use vstd::prelude::*;

use crate::snippet::Snippet;
use crate::text::before_char;
use crate::text::lemma_before_char_at;
use crate::text::trim_spec;
use crate::text::trim;
use crate::text::lines_of;
use crate::text::lines_exec;
use crate::text::join_with;
use crate::text::join_with_exec;
use vstd::string::StringExecFns;
use vstd::string::StrSliceExecFns;

verus! {

/// Where a snippet installs.
#[derive(PartialEq, Eq, Structural, Clone, Copy, Debug)]
pub enum InstallTarget {
    /// The target document in the current directory.
    LocalDir,
    /// The target document in the user's configuration directory.
    UserDir,
}

/// Decides where a snippet installs: an explicit flag wins; otherwise the
/// configured default location; anything unrecognized means the current
/// directory.
pub fn notes_md_location(force_local: bool, force_user: bool, configured: &str) -> (r:
    InstallTarget)
    ensures
        r == (if force_local {
            InstallTarget::LocalDir
        } else if force_user {
            InstallTarget::UserDir
        } else if configured@ == "user"@ {
            InstallTarget::UserDir
        } else {
            InstallTarget::LocalDir
        }),
{
    if force_local {
        InstallTarget::LocalDir
    } else if force_user {
        InstallTarget::UserDir
    } else if crate::text::str_eq(configured, "user") {
        InstallTarget::UserDir
    } else {
        InstallTarget::LocalDir
    }
}

/// Whether trimmed content already leads with a markdown heading, so that
/// no generated heading is needed.
pub open spec fn has_leading_header(c: Seq<char>) -> bool {
    let t = trim_spec(before_char(c, '\n'));
    t.len() > 0 && t[0] == '#'
}

/// The target document with the snippet appended: trimmed content that
/// already leads with a heading follows a blank line as it stands; other
/// content gets a generated heading naming the snippet.
pub fn install_to_notes_md(existing: &str, snippet: &Snippet) -> (r: String)
    ensures
        ({
            let c = trim_spec(snippet.content@);
            r@ == if has_leading_header(c) {
                existing@ + "\n\n"@ + c
            } else {
                existing@ + "\n\n# "@ + snippet.name@ + " (installed snippet)\n\n"@ + c
            }
        }),
{
    let trimmed = trim(snippet.content.as_str());
    let len = trimmed.as_str().unicode_len();
    let mut k: usize = 0;
    while k < len && trimmed.as_str().get_char(k) != '\n'
        invariant
            k <= len,
            len == trimmed@.len(),
            forall|j: int| 0 <= j < k ==> trimmed@[j] != '\n',
        decreases len - k,
    {
        k += 1;
    }
    proof {
        lemma_before_char_at(trimmed@, '\n', k as int);
    }
    let first_line = trimmed.as_str().substring_char(0, k);
    let ft = trim(first_line);
    let has_header = ft.as_str().unicode_len() > 0 && ft.as_str().get_char(0) == '#';
    let mut out = String::new();
    out.append(existing);
    if has_header {
        out.append("\n\n");
        out.append(trimmed.as_str());
        proof {
            assert(out@ =~= existing@ + "\n\n"@ + trim_spec(snippet.content@));
        }
    } else {
        out.append("\n\n# ");
        out.append(snippet.name.as_str());
        out.append(" (installed snippet)\n\n");
        out.append(trimmed.as_str());
        proof {
            assert(out@ =~= existing@ + "\n\n# "@ + snippet.name@ + " (installed snippet)\n\n"@
                + trim_spec(snippet.content@));
        }
    }
    out
}

/// The preview of a snippet's content shown before installation: its
/// first lines, at most five, with a marker when more follow.
pub open spec fn preview_spec(content: Seq<char>) -> Seq<char> {
    let l = lines_of(content);
    join_with(
        l.take(
            if l.len() < 5 {
                l.len() as int
            } else {
                5
            },
        ),
        "\n"@,
    ) + if l.len() > 5 {
        "\n... (truncated)"@
    } else {
        Seq::empty()
    }
}

/// Renders the content preview shown before installation.
pub fn preview_content(content: &str) -> (r: String)
    ensures
        r@ == preview_spec(content@),
{
    let lines = lines_exec(content);
    let n = lines.len();
    let take_n = if n < 5 {
        n
    } else {
        5
    };
    let mut taken: Vec<String> = Vec::new();
    let mut k: usize = 0;
    proof {
        assert(taken.deep_view() =~= lines.deep_view().take(0));
    }
    while k < take_n
        invariant
            k <= take_n,
            take_n <= lines.len(),
            taken.deep_view() == lines.deep_view().take(k as int),
        decreases take_n - k,
    {
        taken.push(lines[k].clone());
        proof {
            assert(taken.deep_view() =~~= lines.deep_view().take(k + 1));
        }
        k += 1;
    }
    let mut out = join_with_exec(&taken, "\n");
    if n > 5 {
        out.append("\n... (truncated)");
        proof {
            assert(out@ =~= preview_spec(content@));
        }
    } else {
        proof {
            assert(out@ + Seq::<char>::empty() =~= out@);
        }
    }
    out
}

} // verus!
