//! The snippet record: a named, uniquely identified unit of reusable text.
use vstd::prelude::*;

verus! {

/// A content record. `id` is an opaque unique identifier generated at
/// creation; `created_at` is a timestamp string in a sortable format;
/// `description` is optional free text.
pub struct Snippet {
    pub id: String,
    pub name: String,
    pub content: String,
    pub created_at: String,
    pub description: Option<String>,
}

/// The mathematical model of a snippet: each field as a character sequence.
#[verifier::ext_equal]
pub ghost struct SnippetView {
    pub id: Seq<char>,
    pub name: Seq<char>,
    pub content: Seq<char>,
    pub created_at: Seq<char>,
    pub description: Option<Seq<char>>,
}

impl View for Snippet {
    type V = SnippetView;

    open spec fn view(&self) -> SnippetView {
        SnippetView {
            id: self.id@,
            name: self.name@,
            content: self.content@,
            created_at: self.created_at@,
            description: match self.description {
                Some(d) => Some(d@),
                None => None,
            },
        }
    }
}

impl DeepView for Snippet {
    type V = SnippetView;

    open spec fn deep_view(&self) -> SnippetView {
        self.view()
    }
}

impl Clone for Snippet {
    fn clone(&self) -> (r: Self)
        ensures
            r@ == self@,
    {
        let r = Snippet {
            id: self.id.clone(),
            name: self.name.clone(),
            content: self.content.clone(),
            created_at: self.created_at.clone(),
            description: match &self.description {
                Some(d) => Some(d.clone()),
                None => None,
            },
        };
        assert(r@ =~= self@);
        r
    }
}

} // verus!
