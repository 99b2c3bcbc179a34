//! The texts of JSONPath queries, as far as it matters here which functions they call.

use vstd::prelude::*;

verus! {

/// Where a reader of a query stands: behind a quote that is still open, and then whether
/// right behind a backslash.
pub struct Quoting {
    pub quote: Option<char>,
    pub escaped: bool,
}

/// What one more character makes of it.
pub open spec fn quoting_behind(before: Quoting, c: char) -> Quoting {
    match before.quote {
        None => if c == '"' || c == '\'' {
            Quoting { quote: Some(c), escaped: false }
        } else {
            Quoting { quote: None, escaped: false }
        },
        Some(quote) => if before.escaped {
            Quoting { quote: Some(quote), escaped: false }
        } else if c == '\\' {
            Quoting { quote: Some(quote), escaped: true }
        } else if c == quote {
            Quoting { quote: None, escaped: false }
        } else {
            Quoting { quote: Some(quote), escaped: false }
        },
    }
}

/// Where a reader stands behind the first `n` characters of a query.
pub open spec fn quoting_at(path: Seq<char>, n: int) -> Quoting
    decreases n,
{
    if n <= 0 {
        Quoting { quote: None, escaped: false }
    } else {
        quoting_behind(quoting_at(path, n - 1), path[n - 1])
    }
}

/// At a position, outside of quotes, stands a call of the function `glob`.
pub open spec fn glob_call_at(path: Seq<char>, i: int) -> bool {
    &&& 0 <= i <= path.len() - 5
    &&& quoting_at(path, i).quote is None
    &&& path[i] == 'g'
    &&& path[i + 1] == 'l'
    &&& path[i + 2] == 'o'
    &&& path[i + 3] == 'b'
    &&& path[i + 4] == '('
}

/// A query calls the function `glob`.
pub open spec fn calls_glob(path: Seq<char>) -> bool {
    exists|i: int| glob_call_at(path, i)
}

/// Whether a query calls the function `glob`.
pub fn has_glob_call(path: &str) -> (r: bool)
    ensures
        r == calls_glob(path@),
{
    let n = path.unicode_len();
    let mut quote: Option<char> = None;
    let mut escaped = false;
    let mut i: usize = 0;
    while i < n
        invariant
            i <= n,
            n == path@.len(),
            quoting_at(path@, i as int) == (Quoting { quote, escaped }),
            forall|j: int| 0 <= j < i ==> !glob_call_at(path@, j),
        decreases n - i,
    {
        let c = path.get_char(i);
        match quote {
            None => {
                if n - i >= 5 && c == 'g' && path.get_char(i + 1) == 'l' && path.get_char(i + 2)
                    == 'o' && path.get_char(i + 3) == 'b' && path.get_char(i + 4) == '(' {
                    assert(glob_call_at(path@, i as int));
                    return true;
                }
                if c == '"' || c == '\'' {
                    quote = Some(c);
                }
                escaped = false;
            },
            Some(open) => {
                if escaped {
                    escaped = false;
                } else if c == '\\' {
                    escaped = true;
                } else if c == open {
                    quote = None;
                }
            },
        }
        i = i + 1;
    }
    false
}

/// Some part of a text is `glob(`.
pub open spec fn glob_written_at(path: Seq<char>, i: int) -> bool {
    0 <= i <= path.len() - 5 && path.subrange(i, i + 5) == seq!['g', 'l', 'o', 'b', '(']
}

/// A query without quotes calls the function where its name is written before a bracket.
pub proof fn law_calls_are_seen_by_the_name(path: Seq<char>)
    requires
        !path.contains('"'),
        !path.contains('\''),
    ensures
        calls_glob(path) <==> exists|i: int| glob_written_at(path, i),
{
    if calls_glob(path) {
        let i = choose|i: int| glob_call_at(path, i);
        assert(path.subrange(i, i + 5) =~= seq!['g', 'l', 'o', 'b', '(']);
        assert(glob_written_at(path, i));
    }
    if exists|i: int| glob_written_at(path, i) {
        let i = choose|i: int| glob_written_at(path, i);
        let name = path.subrange(i, i + 5);
        lemma_no_quotes(path, i);
        assert(name[0] == path[i] && name[1] == path[i + 1] && name[2] == path[i + 2] && name[3]
            == path[i + 3] && name[4] == path[i + 4]);
        assert(glob_call_at(path, i));
    }
}

proof fn lemma_no_quotes(path: Seq<char>, n: int)
    requires
        0 <= n <= path.len(),
        !path.contains('"'),
        !path.contains('\''),
    ensures
        quoting_at(path, n).quote is None,
    decreases n,
{
    if n > 0 {
        lemma_no_quotes(path, n - 1);
        assert(path.contains(path[n - 1]));
    }
}

/// What is written between quotes is no call, whichever kind of quotes they are.
pub proof fn law_quoted_names_are_no_calls(quote: char, quoted: Seq<char>)
    requires
        quote == '"' || quote == '\'',
        !quoted.contains(quote),
        !quoted.contains('\\'),
    ensures
        !calls_glob(seq![quote] + quoted + seq![quote]),
{
    let path = seq![quote] + quoted + seq![quote];
    assert forall|i: int| !glob_call_at(path, i) by {
        if glob_call_at(path, i) {
            assert(path[0] == quote);
            lemma_within_quotes(quote, quoted, i);
        }
    }
}

proof fn lemma_within_quotes(quote: char, quoted: Seq<char>, n: int)
    requires
        quote == '"' || quote == '\'',
        !quoted.contains(quote),
        !quoted.contains('\\'),
        1 <= n <= quoted.len() + 1,
    ensures
        quoting_at(seq![quote] + quoted + seq![quote], n) == (Quoting {
            quote: Some(quote),
            escaped: false,
        }),
    decreases n,
{
    let path = seq![quote] + quoted + seq![quote];
    if n == 1 {
        reveal_with_fuel(quoting_at, 2);
        assert(path[0] == quote);
    } else {
        lemma_within_quotes(quote, quoted, n - 1);
        assert(path[n - 1] == quoted[n - 2]);
        assert(quoted.contains(quoted[n - 2]));
    }
}

} // verus!
