//! Note-taking requests and the full-text search term they lead to.
//!
//! Persisting notes is the surrounding glue's business; what the library
//! owns is the shape of the requests and the one computation among them:
//! turning a raw search query into the match term handed to the search
//! index, with quotes doubled and a trailing star, or nothing when the
//! query is missing or blank.

use vstd::prelude::*;

use crate::dates::string_from_chars;
use crate::documents::{is_space, is_space_char};

verus! {

/// A request to create a note.
#[derive(Debug, Clone, PartialEq)]
pub struct CreateNote {
    pub title: String,
    pub content: String,
}

/// A request to rewrite a note.
#[derive(Debug, Clone, PartialEq)]
pub struct UpdateNote {
    pub id: i64,
    pub title: String,
    pub content: String,
}

/// A request to delete a note.
#[derive(Debug, Clone, PartialEq)]
pub struct DeleteNote {
    pub id: i64,
}

/// A request to flip a note's pin.
#[derive(Debug, Clone, PartialEq)]
pub struct TogglePin {
    pub id: i64,
}

/// An optional full-text search query.
#[derive(Debug, Clone, PartialEq)]
pub struct SearchQuery {
    pub q: Option<String>,
}

/// A note as returned to the caller.
#[derive(Debug, Clone, PartialEq)]
pub struct NoteResponse {
    pub id: i64,
    pub title: String,
    pub content: String,
    pub pinned: bool,
    pub created_at: i64,
}

/// Every character is whitespace (or there is none): the query carries
/// nothing to search for.
pub open spec fn all_spaces(s: Seq<char>) -> bool {
    forall|i: int| 0 <= i < s.len() ==> is_space_char(s[i])
}

/// The query's characters with every double quote doubled, as the search
/// index's match syntax asks.
pub open spec fn escape_quotes(s: Seq<char>) -> Seq<char>
    decreases s.len(),
{
    if s.len() == 0 {
        Seq::empty()
    } else {
        escape_quotes(s.drop_last()) + (if s.last() == '"' {
            seq!['"', '"']
        } else {
            seq![s.last()]
        })
    }
}

/// The match term of a search request: the query with quotes doubled and
/// a star appended; no term when the query is missing or all whitespace.
pub fn fts_match_term(query: &SearchQuery) -> (r: Option<String>)
    ensures
        r is None <==> (query.q is None || all_spaces(query.q->0@)),
        r is Some ==> r->0@ == escape_quotes(query.q->0@) + "*"@,
{
    let s: &String = match &query.q {
        None => {
            return None;
        },
        Some(s) => s,
    };
    let n = s.as_str().unicode_len();
    let mut blank = true;
    let mut i: usize = 0;
    while i < n
        invariant
            n == s@.len(),
            0 <= i <= n,
            blank == (forall|j: int| 0 <= j < i ==> is_space_char(s@[j])),
        decreases n - i,
    {
        let c = s.as_str().get_char(i);
        if !is_space(c) {
            blank = false;
        }
        proof {
            if !is_space_char(s@[i as int]) {
                assert(!(forall|j: int| 0 <= j < i + 1 ==> is_space_char(s@[j])));
            }
        }
        i += 1;
    }
    if blank {
        return None;
    }
    let mut out: Vec<char> = Vec::new();
    let mut i: usize = 0;
    proof {
        assert(out@ =~= escape_quotes(s@.subrange(0, 0)));
    }
    while i < n
        invariant
            n == s@.len(),
            0 <= i <= n,
            out@ == escape_quotes(s@.subrange(0, i as int)),
        decreases n - i,
    {
        let ghost prefix = s@.subrange(0, i as int);
        let c = s.as_str().get_char(i);
        if c == '"' {
            out.push('"');
            out.push('"');
        } else {
            out.push(c);
        }
        proof {
            assert(s@.subrange(0, i + 1).drop_last() =~= prefix);
            assert(s@.subrange(0, i + 1).last() == s@[i as int]);
            assert(out@ =~= escape_quotes(s@.subrange(0, i + 1)));
        }
        i += 1;
    }
    out.push('*');
    let r = string_from_chars(&out);
    proof {
        reveal_strlit("*");
        assert(s@.subrange(0, n as int) =~= s@);
        assert(r@ =~= escape_quotes(s@) + "*"@);
    }
    Some(r)
}

} // verus!
