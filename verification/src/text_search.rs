//! The rules of a search through text: how its switches are read, what is
//! searched for, the lines shown around each match, and when the search has
//! found enough.
//!
//! The pattern is the query as it stands, or the query taken literally as a
//! whole word; it matches without regard to case unless asked otherwise. A
//! match at one line is reported with up to a fixed number of lines before
//! it and as many after it, as far as the text has them. Matches are
//! gathered file by file until their number reaches the limit.
use vstd::prelude::*;

verus! {

/// The largest file that is searched, in bytes.
pub const MAX_FILE_SIZE: u64 = 1024 * 1024;

/// The number of matches at which a search ends where none is set.
pub const DEFAULT_MAX_RESULTS: usize = 100;

/// What a switch is set to by a word in small letters: on by `true` or `1`,
/// off by `false` or `0`, and nothing by any other.
pub open spec fn meant(word: Seq<char>) -> Option<bool> {
    if word == "true"@ || word == "1"@ {
        Some(true)
    } else if word == "false"@ || word == "0"@ {
        Some(false)
    } else {
        None
    }
}

/// Reads a switch from a word in small letters.
pub fn flag_of(word: &str) -> (flag: Option<bool>)
    ensures
        flag == meant(word@),
{
    let word = String::from_str(word);
    if word == String::from_str("true") || word == String::from_str("1") {
        Some(true)
    } else if word == String::from_str("false") || word == String::from_str("0") {
        Some(false)
    } else {
        None
    }
}

/// The number of lines shown on each side of a match where none is asked
/// for.
pub fn default_context() -> (lines: usize)
    ensures
        lines == 2,
{
    2
}

/// The first of the lines shown before the match at `line`: `context`
/// lines back, or the start of the text.
pub open spec fn first_before(line: nat, context: nat) -> nat {
    if line >= context {
        (line - context) as nat
    } else {
        0
    }
}

/// The line after the last of those shown behind the match at `line`:
/// `context` lines on, or the end of a text of `total` lines.
pub open spec fn end_after(line: nat, context: nat, total: nat) -> nat {
    if line + 1 + context <= total {
        line + 1 + context
    } else {
        total
    }
}

/// The range of the lines shown around the match at `line` of a text of
/// `total` lines: those before it start at the first number and end at
/// `line`, those behind it start after `line` and end at the second.
pub fn context_window(line: usize, context: usize, total: usize) -> (window: (usize, usize))
    requires
        line < total,
    ensures
        window.0 == first_before(line as nat, context as nat),
        window.1 == end_after(line as nat, context as nat, total as nat),
        window.0 <= line < window.1 <= total,
        line - window.0 <= context,
        window.1 - (line + 1) <= context,
{
    let first = if line >= context {
        line - context
    } else {
        0
    };
    let end = if context < total - line - 1 {
        line + 1 + context
    } else {
        total
    };
    (first, end)
}

/// How many of `found` more matches are taken when `held` are held and the
/// search ends at `limit`: as many as bring the number to the limit, and at
/// least one where there is one.
pub open spec fn taken(held: nat, found: nat, limit: nat) -> nat {
    let wanted = if limit > held {
        (limit - held) as nat
    } else {
        1nat
    };
    if found < wanted {
        found
    } else {
        wanted
    }
}

/// Adds the matches found in one file to those held, up to the limit, and
/// says whether the limit is reached, so that the search ends.
pub fn gather<T>(results: &mut Vec<T>, found: Vec<T>, limit: usize) -> (full: bool)
    ensures
        final(results)@ == old(results)@ + found@.take(
            taken(old(results)@.len(), found@.len(), limit as nat) as int,
        ),
        full == (found@.len() > 0 && final(results)@.len() >= limit),
{
    let held = results.len();
    let wanted: usize = if limit > held {
        limit - held
    } else {
        1
    };
    let mut rest = found;
    if rest.len() >= wanted {
        rest.truncate(wanted);
        assert(rest@ =~= found@.take(wanted as int));
        results.append(&mut rest);
        true
    } else {
        assert(rest@ =~= found@.take(found@.len() as int));
        results.append(&mut rest);
        false
    }
}

/// The pattern for `query`: the query itself, or `escaped` between word
/// boundaries where a whole word is asked for, and before it the mark that
/// makes the match blind to case unless case matters. `escaped` is the
/// query with every character that means something in a pattern made
/// literal.
pub open spec fn pattern_of(
    query: Seq<char>,
    escaped: Seq<char>,
    whole_word: bool,
    case_sensitive: bool,
) -> Seq<char> {
    let core = if whole_word {
        "\\b"@ + escaped + "\\b"@
    } else {
        query
    };
    if case_sensitive {
        core
    } else {
        "(?i)"@ + core
    }
}

/// Writes the pattern for `query`, given the query made literal.
pub fn pattern_text(query: &str, escaped: &str, whole_word: bool, case_sensitive: bool) -> (pattern:
    String)
    ensures
        pattern@ == pattern_of(query@, escaped@, whole_word, case_sensitive),
{
    let mut pattern = if case_sensitive {
        String::new()
    } else {
        String::from_str("(?i)")
    };
    if whole_word {
        pattern.append("\\b");
        pattern.append(escaped);
        pattern.append("\\b");
    } else {
        pattern.append(query);
    }
    proof {
        let empty = Seq::<char>::empty();
        assert(empty + query@ =~= query@);
        assert(empty + "\\b"@ + escaped@ + "\\b"@ =~= "\\b"@ + escaped@ + "\\b"@);
        assert("(?i)"@ + "\\b"@ + escaped@ + "\\b"@ =~= "(?i)"@ + ("\\b"@ + escaped@ + "\\b"@));
    }
    pattern
}

} // verus!
