//! Shell-style command words: splitting a configured command line into its
//! words, joining words back into a single displayable line.

use vstd::prelude::*;
use vstd::string::*;

verus! {

/// What `shell_words::split` yields for a command line: the posix-shell word
/// list, or nothing when the line is malformed (for example an unclosed
/// quote). The result depends on the line alone.
pub uninterp spec fn shell_split_of(line: Seq<char>) -> Option<Seq<Seq<char>>>;

/// The command line that `shell_words::join` renders for a word list, quoting
/// words where the shell would need it. The result depends on the words alone.
pub uninterp spec fn shell_join_of(words: Seq<Seq<char>>) -> Seq<char>;

/// Relies on `shell_words::split`: splits a command line into words by posix
/// shell rules, failing exactly on malformed input.
#[verifier::external_body]
pub fn shell_split(line: &str) -> (r: Option<Vec<String>>)
    ensures
        r is Some <==> shell_split_of(line@) is Some,
        r matches Some(v) ==> shell_split_of(line@) == Some(v.deep_view()),
{
    shell_words::split(line).ok()
}

/// Relies on `shell_words::join`: renders a word list as one command line,
/// quoting each word to preserve its literal meaning, so that splitting the
/// line recovers exactly the words joined (join is documented as the inverse
/// of split).
#[verifier::external_body]
pub fn shell_join(words: &Vec<String>) -> (r: String)
    ensures
        r@ == shell_join_of(words.deep_view()),
        shell_split_of(r@) == Some(words.deep_view()),
{
    shell_words::join(words)
}

/// The words separated by single spaces, with no quoting.
pub open spec fn join_spaces_of(words: Seq<Seq<char>>) -> Seq<char>
    decreases words.len(),
{
    if words.len() == 0 {
        Seq::empty()
    } else if words.len() == 1 {
        words[0]
    } else {
        join_spaces_of(words.drop_last()) + " "@ + words.last()
    }
}

/// Joins words with single spaces, exactly as `join_spaces_of` describes.
pub fn join_spaces(words: &Vec<String>) -> (r: String)
    ensures
        r@ == join_spaces_of(words.deep_view()),
{
    let mut out = String::new();
    let mut i: usize = 0;
    while i < words.len()
        invariant
            i <= words.len(),
            out@ == join_spaces_of(words.deep_view().take(i as int)),
        decreases words.len() - i,
    {
        if i > 0 {
            out.append(" ");
        }
        let w: &String = &words[i];
        out.append(w.as_str());
        i = i + 1;
        proof {
            let full = words.deep_view();
            assert(full.take(i as int).drop_last() =~= full.take(i - 1));
            assert(full.take(i as int).last() == full[i - 1]);
            if i == 1 {
                assert(out@ =~= join_spaces_of(full.take(i as int)));
            }
        }
    }
    proof {
        assert(words.deep_view().take(words.len() as int) =~= words.deep_view());
    }
    out
}

} // verus!
