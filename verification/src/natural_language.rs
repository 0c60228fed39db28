//! Heuristics that tell whether a line typed into the terminal is natural
//! language meant for an assistant or a shell command.

use vstd::prelude::*;

use std::borrow::Cow;

use crate::text::{
    ascii_lower, chars_of, ends_with_str, is_ascii_text, lowercase_text, owned, str_eq,
    string_from_range, to_lowercase,
};

verus! {

broadcast use vstd::string::group_string_axioms;

/// The word lists that tokens are looked up in.
#[derive(Clone, Copy, Debug, PartialEq, Eq, Structural, Hash)]
pub enum WordDb {
    /// Common English words.
    English,
    /// Names of common shell commands.
    Command,
}

/// The common English words.
pub open spec fn english_words() -> Seq<&'static str> {
    seq![
        "a", "about", "after", "again", "all", "also", "an", "and", "any", "are", "as", "ask",
        "at", "be", "beautiful", "because", "been", "before", "best", "between", "both", "but",
        "by", "call", "can", "change", "could", "create", "day", "delete", "did", "directory",
        "do", "does", "done", "down", "each", "error", "even", "every", "explain", "file",
        "files", "find", "first", "folder", "for", "from", "get", "give", "go", "good",
        "great", "had", "has", "have", "he", "hello", "help", "her", "here", "him", "his",
        "how", "i", "if", "in", "into", "is", "it", "its", "just", "know", "last", "latest",
        "like", "list", "long", "look", "make", "many", "me", "more", "most", "my", "name",
        "need", "new", "no", "not", "now", "of", "old", "on", "one", "only", "or", "other",
        "our", "out", "over", "people", "please", "project", "recent", "remove", "run", "same",
        "see", "she", "should", "show", "so", "some", "status", "than", "thank", "thanks",
        "that", "the", "their", "them", "then", "there", "these", "they", "thing", "think",
        "this", "those", "time", "to", "two", "up", "us", "use", "want", "was", "way", "we",
        "well", "were", "what", "when", "where", "which", "who", "why", "will", "with", "work",
        "would", "write", "year", "yes", "you", "your",
    ]
}

/// The names of common shell commands.
pub open spec fn command_words() -> Seq<&'static str> {
    seq![
        "awk", "bash", "brew", "cargo", "cat", "cd", "chmod", "chown", "clear", "cp", "curl",
        "cut", "date", "df", "diff", "docker", "du", "echo", "env", "exit", "export", "find",
        "git", "grep", "gzip", "head", "history", "htop", "kill", "kubectl", "less", "ln",
        "ls", "make", "man", "mkdir", "more", "mv", "nano", "node", "npm", "ping", "pip", "ps",
        "pwd", "python", "python3", "rm", "rmdir", "rsync", "scp", "sed", "sort", "ssh",
        "sudo", "tail", "tar", "time", "top", "touch", "uniq", "unzip", "vim", "wc", "wget",
        "which", "whoami", "xargs", "yarn", "yes", "zip", "zsh",
    ]
}

/// The words of a list.
pub open spec fn word_list(db: WordDb) -> Seq<&'static str> {
    match db {
        WordDb::English => english_words(),
        WordDb::Command => command_words(),
    }
}

/// Whether the list holds the word `w`.
pub open spec fn in_word_list(db: WordDb, w: Seq<char>) -> bool {
    exists|i: int| 0 <= i < word_list(db).len() && (#[trigger] word_list(db)[i])@ == w
}

fn word_table(db: WordDb) -> (v: Vec<&'static str>)
    ensures
        v@ == word_list(db),
{
    match db {
        WordDb::English => {
            let v = vec![
                "a", "about", "after", "again", "all", "also", "an", "and", "any", "are", "as", "ask",
                "at", "be", "beautiful", "because", "been", "before", "best", "between", "both", "but",
                "by", "call", "can", "change", "could", "create", "day", "delete", "did", "directory",
                "do", "does", "done", "down", "each", "error", "even", "every", "explain", "file",
                "files", "find", "first", "folder", "for", "from", "get", "give", "go", "good",
                "great", "had", "has", "have", "he", "hello", "help", "her", "here", "him", "his",
                "how", "i", "if", "in", "into", "is", "it", "its", "just", "know", "last", "latest",
                "like", "list", "long", "look", "make", "many", "me", "more", "most", "my", "name",
                "need", "new", "no", "not", "now", "of", "old", "on", "one", "only", "or", "other",
                "our", "out", "over", "people", "please", "project", "recent", "remove", "run", "same",
                "see", "she", "should", "show", "so", "some", "status", "than", "thank", "thanks",
                "that", "the", "their", "them", "then", "there", "these", "they", "thing", "think",
                "this", "those", "time", "to", "two", "up", "us", "use", "want", "was", "way", "we",
                "well", "were", "what", "when", "where", "which", "who", "why", "will", "with", "work",
                "would", "write", "year", "yes", "you", "your",
            ];
            assert(v@ =~= english_words());
            v
        },
        WordDb::Command => {
            let v = vec![
                "awk", "bash", "brew", "cargo", "cat", "cd", "chmod", "chown", "clear", "cp", "curl",
                "cut", "date", "df", "diff", "docker", "du", "echo", "env", "exit", "export", "find",
                "git", "grep", "gzip", "head", "history", "htop", "kill", "kubectl", "less", "ln",
                "ls", "make", "man", "mkdir", "more", "mv", "nano", "node", "npm", "ping", "pip", "ps",
                "pwd", "python", "python3", "rm", "rmdir", "rsync", "scp", "sed", "sort", "ssh",
                "sudo", "tail", "tar", "time", "top", "touch", "uniq", "unzip", "vim", "wc", "wget",
                "which", "whoami", "xargs", "yarn", "yes", "zip", "zsh",
            ];
            assert(v@ =~= command_words());
            v
        },
    }
}

/// Whether `word` is in the given list (an exact, case-sensitive match).
pub fn is_word(word: &str, db: WordDb) -> (r: bool)
    ensures
        r == in_word_list(db, word@),
{
    let table = word_table(db);
    let mut i: usize = 0;
    while i < table.len()
        invariant
            table@ == word_list(db),
            i <= table@.len(),
            forall|j: int| 0 <= j < i ==> (#[trigger] table@[j])@ != word@,
        decreases table@.len() - i,
    {
        if str_eq(word, table[i]) {
            return true;
        }
        i = i + 1;
    }
    false
}

/// Characters that only occur in a single shell token as shell syntax.
pub open spec fn is_shell_char(c: char) -> bool {
    c == '$' || c == '|' || c == '>' || c == '<' || c == '&' || c == ';' || c == '`' || c == '/'
        || c == '\\' || c == '*' || c == '~' || c == '=' || c == '(' || c == ')' || c == '{' || c
        == '}' || c == '[' || c == ']'
}

/// Whitespace, which a single token does not hold.
pub open spec fn is_space_char(c: char) -> bool {
    c == ' ' || c == '\t' || c == '\n' || c == '\r'
}

/// Whether a token reads as shell syntax: it holds no whitespace, and it is
/// a flag (begins with '-') or holds a shell character.
pub open spec fn has_shell_syntax(t: Seq<char>) -> bool {
    &&& !(exists|i: int| 0 <= i < t.len() && is_space_char(#[trigger] t[i]))
    &&& ((t.len() > 0 && t[0] == '-') || exists|i: int| 0 <= i < t.len() && is_shell_char(#[trigger] t[i]))
}

/// Whether a single token holds shell syntax such as a variable, a pipe, a
/// redirection, a path or a flag. A text with whitespace is no single token
/// and gives `false`.
pub fn check_if_token_has_shell_syntax(token: &str) -> (r: bool)
    ensures
        r == has_shell_syntax(token@),
{
    let cs = chars_of(token);
    let mut found_shell = cs.len() > 0 && cs[0] == '-';
    let mut i: usize = 0;
    while i < cs.len()
        invariant
            cs@ == token@,
            i <= cs@.len(),
            forall|j: int| 0 <= j < i ==> !is_space_char(#[trigger] cs@[j]),
            found_shell == ((cs@.len() > 0 && cs@[0] == '-') || exists|j: int|
                0 <= j < i && is_shell_char(#[trigger] cs@[j])),
        decreases cs@.len() - i,
    {
        let c = cs[i];
        if c == ' ' || c == '\t' || c == '\n' || c == '\r' {
            return false;
        }
        if c == '$' || c == '|' || c == '>' || c == '<' || c == '&' || c == ';' || c == '`' || c
            == '/' || c == '\\' || c == '*' || c == '~' || c == '=' || c == '(' || c == ')' || c
            == '{' || c == '}' || c == '[' || c == ']' {
            found_shell = true;
        }
        i = i + 1;
    }
    found_shell
}

/// Whether a text is enclosed in a matching pair of double or single quotes.
pub open spec fn is_wrapped_in_quotes(s: Seq<char>) -> bool {
    s.len() >= 2 && (s[0] == '"' || s[0] == '\'') && s[s.len() - 1] == s[0]
}

/// Whether `s` begins and ends with the same quote character, `"` or `'`.
pub fn wrapped_in_quotes(s: &str) -> (r: bool)
    ensures
        r == is_wrapped_in_quotes(s@),
{
    let cs = chars_of(s);
    if cs.len() < 2 {
        return false;
    }
    let first = cs[0];
    (first == '"' || first == '\'') && cs[cs.len() - 1] == first
}

/// Whether `s` ends with `suffix`.
pub open spec fn seq_ends_with(s: Seq<char>, suffix: Seq<char>) -> bool {
    suffix.len() <= s.len() && s.subrange(s.len() - suffix.len(), s.len() as int) == suffix
}

/// A lowercase token with its contraction removed: "can't" gives "can",
/// "won't" gives "will", otherwise the endings "n't", "'s", "'d", "'m",
/// "'ll", "'re" and "'ve" are cut off.
pub open spec fn strip_contraction(s: Seq<char>) -> Seq<char> {
    if s == "can't"@ {
        "can"@
    } else if s == "won't"@ {
        "will"@
    } else if seq_ends_with(s, "n't"@) {
        s.subrange(0, s.len() - 3)
    } else if seq_ends_with(s, "'s"@) || seq_ends_with(s, "'d"@) || seq_ends_with(s, "'m"@) {
        s.subrange(0, s.len() - 2)
    } else if seq_ends_with(s, "'ll"@) || seq_ends_with(s, "'re"@) || seq_ends_with(s, "'ve"@) {
        s.subrange(0, s.len() - 3)
    } else {
        s
    }
}

/// A token made ready for lookup: lowercased, contraction removed.
pub open spec fn preprocess(t: Seq<char>) -> Seq<char> {
    strip_contraction(lowercase_text(t))
}

/// Removes the contraction at the end of a lowercase token: "can't" gives
/// "can", "won't" gives "will", and the endings "n't", "'s", "'d", "'m",
/// "'ll", "'re" and "'ve" are cut off.
pub fn remove_contraction(lower: &str) -> (r: String)
    ensures
        r@ == strip_contraction(lower@),
{
    let cs = chars_of(lower);
    let n = cs.len();
    if str_eq(lower, "can't") {
        return owned("can");
    }
    if str_eq(lower, "won't") {
        return owned("will");
    }
    if ends_with_str(cs.as_slice(), "n't") {
        proof { reveal_strlit("n't"); }
        return string_from_range(cs.as_slice(), 0, n - 3);
    }
    if ends_with_str(cs.as_slice(), "'s") || ends_with_str(cs.as_slice(), "'d") || ends_with_str(
        cs.as_slice(),
        "'m",
    ) {
        proof {
            reveal_strlit("'s");
            reveal_strlit("'d");
            reveal_strlit("'m");
        }
        return string_from_range(cs.as_slice(), 0, n - 2);
    }
    if ends_with_str(cs.as_slice(), "'ll") || ends_with_str(cs.as_slice(), "'re")
        || ends_with_str(cs.as_slice(), "'ve") {
        proof {
            reveal_strlit("'ll");
            reveal_strlit("'re");
            reveal_strlit("'ve");
        }
        return string_from_range(cs.as_slice(), 0, n - 3);
    }
    string_from_range(cs.as_slice(), 0, n)
}

/// Lowercases a token and removes a trailing contraction ("don't" gives "do").
pub fn token_preprocessing(token: &str) -> (r: String)
    ensures
        r@ == preprocess(token@),
{
    let lower = to_lowercase(token);
    remove_contraction(lower.as_str())
}

/// How a token counts towards natural language: -1 for shell syntax, +1 for
/// an English word that is not also a command name, 0 otherwise.
pub open spec fn token_weight(t: Seq<char>) -> int {
    if has_shell_syntax(t) {
        -1
    } else if in_word_list(WordDb::English, preprocess(t)) && !in_word_list(
        WordDb::Command,
        preprocess(t),
    ) {
        1
    } else {
        0
    }
}

/// The sum of the weights of a sequence of tokens.
pub open spec fn weight_sum(ts: Seq<Seq<char>>) -> int
    decreases ts.len(),
{
    if ts.len() == 0 {
        0
    } else {
        weight_sum(ts.drop_last()) + token_weight(ts.last())
    }
}

/// The tokens that are weighed: all, or all but the first when it is known
/// to be a command.
pub open spec fn counted_tokens(ts: Seq<Seq<char>>, first_is_command: bool) -> Seq<Seq<char>> {
    if first_is_command && ts.len() > 0 {
        ts.drop_first()
    } else {
        ts
    }
}

/// The natural-language score of a sequence of tokens: the sum of the
/// weights of the counted tokens, or 0 when that sum is negative.
pub open spec fn nl_score(ts: Seq<Seq<char>>, first_is_command: bool) -> nat {
    let s = weight_sum(counted_tokens(ts, first_is_command));
    if s > 0 {
        s as nat
    } else {
        0
    }
}

/// The texts of a sequence of tokens.
pub open spec fn token_views<'a>(ws: Seq<Cow<'a, str>>) -> Seq<Seq<char>> {
    ws.map_values(|w: Cow<'a, str>| w@)
}

fn cow_as_str<'b, 'a>(c: &'b Cow<'a, str>) -> (s: &'b str)
    ensures
        s@ == c@,
{
    match c {
        Cow::Borrowed(b) => b,
        Cow::Owned(o) => o.as_str(),
    }
}

/// How much a tokenised line reads as natural language: every English word
/// that is no command name counts one up, every token with shell syntax one
/// down, and the total is floored at 0. When the first token is known to be
/// a command it is left out.
pub fn natural_language_words_score(words: Vec<Cow<'_, str>>, is_first_token_command: bool) -> (score: usize)
    ensures
        score == nl_score(token_views(words@), is_first_token_command),
{
    let ghost ts = token_views(words@);
    let start: usize = if is_first_token_command && words.len() > 0 {
        1
    } else {
        0
    };
    assert(counted_tokens(ts, is_first_token_command) =~= ts.subrange(start as int, ts.len() as int));
    assert(ts.subrange(start as int, start as int) =~= Seq::<Seq<char>>::empty());
    let mut pos: usize = 0;
    let mut neg: usize = 0;
    let mut i: usize = start;
    while i < words.len()
        invariant
            ts == token_views(words@),
            ts.len() == words@.len(),
            start <= i <= words@.len(),
            pos <= i,
            neg <= i,
            pos - neg == weight_sum(ts.subrange(start as int, i as int)),
        decreases words@.len() - i,
    {
        let w = cow_as_str(&words[i]);
        assert(w@ == ts[i as int]);
        if check_if_token_has_shell_syntax(w) {
            neg = neg + 1;
        } else {
            let p = token_preprocessing(w);
            if is_word(p.as_str(), WordDb::English) && !is_word(p.as_str(), WordDb::Command) {
                pos = pos + 1;
            }
        }
        assert(ts.subrange(start as int, i + 1).drop_last() =~= ts.subrange(start as int, i as int));
        i = i + 1;
    }
    if pos > neg {
        pos - neg
    } else {
        0
    }
}

/// Leaving out a first token known to be a command scores the rest alone.
pub proof fn lemma_score_skips_first_command(ts: Seq<Seq<char>>)
    requires
        ts.len() > 0,
    ensures
        nl_score(ts, true) == nl_score(ts.drop_first(), false),
{
}

proof fn lemma_weight_sum_first(ts: Seq<Seq<char>>)
    requires
        ts.len() > 0,
    ensures
        weight_sum(ts) == token_weight(ts[0]) + weight_sum(ts.drop_first()),
    decreases ts.len(),
{
    if ts.len() > 1 {
        lemma_weight_sum_first(ts.drop_last());
        assert(ts.drop_last().drop_first() =~= ts.drop_first().drop_last());
        assert(ts.drop_last()[0] == ts[0]);
        assert(ts.drop_first().last() == ts.last());
    } else {
        assert(ts.drop_first() =~= Seq::<Seq<char>>::empty());
        assert(ts.drop_last() =~= Seq::<Seq<char>>::empty());
    }
}

/// Leaving out a first token that does not count against natural language
/// (no shell syntax) never raises the score.
pub proof fn lemma_skipping_first_token_never_raises_score(ts: Seq<Seq<char>>)
    requires
        ts.len() > 0,
        !has_shell_syntax(ts[0]),
    ensures
        nl_score(ts, true) <= nl_score(ts, false),
{
    lemma_weight_sum_first(ts);
}

/// A line never scores more than it has tokens.
pub proof fn lemma_score_at_most_token_count(ts: Seq<Seq<char>>, first_is_command: bool)
    ensures
        nl_score(ts, first_is_command) <= ts.len(),
{
    lemma_weight_sum_bounds(counted_tokens(ts, first_is_command));
}

proof fn lemma_weight_sum_bounds(ts: Seq<Seq<char>>)
    ensures
        -(ts.len() as int) <= weight_sum(ts) <= ts.len(),
    decreases ts.len(),
{
    if ts.len() > 0 {
        lemma_weight_sum_bounds(ts.drop_last());
    }
}

/// Shell syntax never raises a line's score: appending a token with shell
/// syntax keeps the score or lowers it by one.
pub proof fn lemma_shell_token_never_raises_score(ts: Seq<Seq<char>>, t: Seq<char>, first_is_command: bool)
    requires
        has_shell_syntax(t),
        !(first_is_command && ts.len() == 0),
    ensures
        nl_score(ts.push(t), first_is_command) <= nl_score(ts, first_is_command),
{
    let c = counted_tokens(ts, first_is_command);
    assert(counted_tokens(ts.push(t), first_is_command) =~= c.push(t));
    assert(c.push(t).drop_last() =~= c);
}

/// A single token (no whitespace) that holds a redirection ('<' or '>'), a
/// pipe, a variable, a command separator or substitution, a path separator,
/// a glob, a home directory, an assignment or a bracket is shell syntax, and
/// so is one that begins with '-' (a flag).
pub proof fn lemma_shell_characters_are_shell_syntax(t: Seq<char>, i: int)
    requires
        0 <= i < t.len(),
        forall|j: int| 0 <= j < t.len() ==> t[j] != ' ' && t[j] != '\t' && t[j] != '\n' && t[j]
            != '\r',
        t[i] == '<' || t[i] == '>' || t[i] == '|' || t[i] == '$' || t[i] == '&' || t[i] == ';'
            || t[i] == '`' || t[i] == '/' || t[i] == '\\' || t[i] == '*' || t[i] == '~' || t[i]
            == '=' || t[i] == '(' || t[i] == ')' || t[i] == '{' || t[i] == '}' || t[i] == '['
            || t[i] == ']' || (i == 0 && t[i] == '-'),
    ensures
        has_shell_syntax(t),
{
    assert(!(exists|j: int| 0 <= j < t.len() && is_space_char(#[trigger] t[j])));
    if !(i == 0 && t[i] == '-') {
        assert(is_shell_char(t[i]));
    }
}

/// A token made of ASCII letters and digits alone, or one that holds
/// whitespace, is no shell syntax.
pub proof fn lemma_plain_words_are_no_shell_syntax(t: Seq<char>)
    ensures
        (forall|j: int|
            0 <= j < t.len() ==> ('a' <= #[trigger] t[j] <= 'z' || 'A' <= t[j] <= 'Z' || '0' <= t[j]
                <= '9')) ==> !has_shell_syntax(t),
        (exists|j: int| 0 <= j < t.len() && #[trigger] t[j] == ' ') ==> !has_shell_syntax(t),
{
    if exists|j: int| 0 <= j < t.len() && #[trigger] t[j] == ' ' {
        let j = choose|j: int| 0 <= j < t.len() && #[trigger] t[j] == ' ';
        assert(is_space_char(t[j]));
    }
}

/// Preprocessing an ASCII token ignores its case: the token and its
/// lowercase give the same lookup form.
pub proof fn lemma_preprocess_ignores_case(t: Seq<char>)
    requires
        is_ascii_text(t),
    ensures
        preprocess(t) == preprocess(t.map_values(|c: char| ascii_lower(c))),
{
    let l = t.map_values(|c: char| ascii_lower(c));
    assert forall|i: int| 0 <= i < l.len() implies (l[i] as u32) < 128 by {
        assert((t[i] as u32) < 128);
    }
    assert(is_ascii_text(l));
    let ll = l.map_values(|c: char| ascii_lower(c));
    assert(ll =~= l);
}

/// A token that is no English word never raises a line's score: appending
/// it keeps the score or lowers it.
pub proof fn lemma_non_english_token_never_raises_score(
    ts: Seq<Seq<char>>,
    t: Seq<char>,
    first_is_command: bool,
)
    requires
        !in_word_list(WordDb::English, preprocess(t)),
        !(first_is_command && ts.len() == 0),
    ensures
        nl_score(ts.push(t), first_is_command) <= nl_score(ts, first_is_command),
{
    let c = counted_tokens(ts, first_is_command);
    assert(counted_tokens(ts.push(t), first_is_command) =~= c.push(t));
    assert(c.push(t).drop_last() =~= c);
}

/// A command name never raises a line's score either.
pub proof fn lemma_command_token_never_raises_score(
    ts: Seq<Seq<char>>,
    t: Seq<char>,
    first_is_command: bool,
)
    requires
        in_word_list(WordDb::Command, preprocess(t)),
        !(first_is_command && ts.len() == 0),
    ensures
        nl_score(ts.push(t), first_is_command) <= nl_score(ts, first_is_command),
{
    let c = counted_tokens(ts, first_is_command);
    assert(counted_tokens(ts.push(t), first_is_command) =~= c.push(t));
    assert(c.push(t).drop_last() =~= c);
}

/// An English word that is no command name and no shell syntax raises a
/// line's score by exactly one when the score before is not floored at 0.
pub proof fn lemma_english_word_raises_score(ts: Seq<Seq<char>>, t: Seq<char>, first_is_command: bool)
    requires
        in_word_list(WordDb::English, preprocess(t)),
        !in_word_list(WordDb::Command, preprocess(t)),
        !has_shell_syntax(t),
        !(first_is_command && ts.len() == 0),
        weight_sum(counted_tokens(ts, first_is_command)) >= 0,
    ensures
        nl_score(ts.push(t), first_is_command) == nl_score(ts, first_is_command) + 1,
{
    let c = counted_tokens(ts, first_is_command);
    assert(counted_tokens(ts.push(t), first_is_command) =~= c.push(t));
    assert(c.push(t).drop_last() =~= c);
}

/// Contractions come off whole: a word without an apostrophe keeps its
/// form; with "'s", "'d", "'m", "'ll", "'re" or "'ve" appended it gives the
/// word back; with "n't" appended it gives the word back too, except that
/// "can't" gives "can" and "won't" gives "will".
pub proof fn lemma_contraction_removal(w: Seq<char>)
    requires
        forall|j: int| 0 <= j < w.len() ==> #[trigger] w[j] != '\'',
    ensures
        strip_contraction(w) == w,
        strip_contraction(w + seq!['\'', 's']) == w,
        strip_contraction(w + seq!['\'', 'd']) == w,
        strip_contraction(w + seq!['\'', 'm']) == w,
        strip_contraction(w + seq!['\'', 'l', 'l']) == w,
        strip_contraction(w + seq!['\'', 'r', 'e']) == w,
        strip_contraction(w + seq!['\'', 'v', 'e']) == w,
        w == seq!['c', 'a'] ==> strip_contraction(w + seq!['n', '\'', 't']) == seq!['c', 'a', 'n'],
        w == seq!['w', 'o'] ==> strip_contraction(w + seq!['n', '\'', 't']) == seq!['w', 'i', 'l', 'l'],
        w != seq!['c', 'a'] && w != seq!['w', 'o'] ==> strip_contraction(w + seq!['n', '\'', 't'])
            == w,
{
    lemma_plain_word_kept(w);
    lemma_short_ending_removed(w, 's');
    lemma_short_ending_removed(w, 'd');
    lemma_short_ending_removed(w, 'm');
    lemma_long_ending_removed(w, 'l', 'l');
    lemma_long_ending_removed(w, 'r', 'e');
    lemma_long_ending_removed(w, 'v', 'e');
    lemma_negation_removed(w);
}

proof fn reveal_contraction_literals()
    ensures
        "can't"@ == seq!['c', 'a', 'n', '\'', 't'],
        "won't"@ == seq!['w', 'o', 'n', '\'', 't'],
        "can"@ == seq!['c', 'a', 'n'],
        "will"@ == seq!['w', 'i', 'l', 'l'],
        "n't"@ == seq!['n', '\'', 't'],
        "'s"@ == seq!['\'', 's'],
        "'d"@ == seq!['\'', 'd'],
        "'m"@ == seq!['\'', 'm'],
        "'ll"@ == seq!['\'', 'l', 'l'],
        "'re"@ == seq!['\'', 'r', 'e'],
        "'ve"@ == seq!['\'', 'v', 'e'],
{
    reveal_strlit("can't");
    reveal_strlit("won't");
    reveal_strlit("can");
    reveal_strlit("will");
    reveal_strlit("n't");
    reveal_strlit("'s");
    reveal_strlit("'d");
    reveal_strlit("'m");
    reveal_strlit("'ll");
    reveal_strlit("'re");
    reveal_strlit("'ve");
}

proof fn lemma_plain_word_kept(w: Seq<char>)
    requires
        forall|j: int| 0 <= j < w.len() ==> #[trigger] w[j] != '\'',
    ensures
        strip_contraction(w) == w,
{
    reveal_contraction_literals();
    let n = w.len() as int;
    if w == "can't"@ || w == "won't"@ {
        assert(w[3] == '\'');
    }
    if seq_ends_with(w, "n't"@) {
        assert(w.subrange(n - 3, n)[1] == w[n - 2]);
    }
    if seq_ends_with(w, "'s"@) || seq_ends_with(w, "'d"@) || seq_ends_with(w, "'m"@) {
        assert(w.subrange(n - 2, n)[0] == w[n - 2]);
    }
    if seq_ends_with(w, "'ll"@) || seq_ends_with(w, "'re"@) || seq_ends_with(w, "'ve"@) {
        assert(w.subrange(n - 3, n)[0] == w[n - 3]);
    }
}

proof fn lemma_short_ending_removed(w: Seq<char>, c: char)
    requires
        c == 's' || c == 'd' || c == 'm',
    ensures
        strip_contraction(w + seq!['\'', c]) == w,
{
    reveal_contraction_literals();
    let x = w + seq!['\'', c];
    let n = x.len() as int;
    assert(x[n - 1] == c);
    assert(x != "can't"@ && x != "won't"@);
    if seq_ends_with(x, "n't"@) {
        assert(x.subrange(n - 3, n)[2] == x[n - 1]);
    }
    assert(x.subrange(n - 2, n) =~= seq!['\'', c]);
    assert(x.subrange(0, n - 2) =~= w);
}

proof fn lemma_long_ending_removed(w: Seq<char>, c: char, d: char)
    requires
        (c == 'l' && d == 'l') || (c == 'r' && d == 'e') || (c == 'v' && d == 'e'),
    ensures
        strip_contraction(w + seq!['\'', c, d]) == w,
{
    reveal_contraction_literals();
    let x = w + seq!['\'', c, d];
    let n = x.len() as int;
    assert(x[n - 1] == d);
    assert(x[n - 2] == c);
    assert(x != "can't"@ && x != "won't"@);
    if seq_ends_with(x, "n't"@) {
        assert(x.subrange(n - 3, n)[2] == x[n - 1]);
    }
    if seq_ends_with(x, "'s"@) || seq_ends_with(x, "'d"@) || seq_ends_with(x, "'m"@) {
        assert(x.subrange(n - 2, n)[0] == x[n - 2]);
    }
    assert(x.subrange(n - 3, n) =~= seq!['\'', c, d]);
    assert(x.subrange(0, n - 3) =~= w);
}

proof fn lemma_negation_removed(w: Seq<char>)
    ensures
        w == seq!['c', 'a'] ==> strip_contraction(w + seq!['n', '\'', 't']) == seq!['c', 'a', 'n'],
        w == seq!['w', 'o'] ==> strip_contraction(w + seq!['n', '\'', 't']) == seq!['w', 'i', 'l', 'l'],
        w != seq!['c', 'a'] && w != seq!['w', 'o'] ==> strip_contraction(w + seq!['n', '\'', 't'])
            == w,
{
    reveal_contraction_literals();
    let x = w + seq!['n', '\'', 't'];
    let n = x.len() as int;
    if w == seq!['c', 'a'] {
        assert(x =~= "can't"@);
    } else if w == seq!['w', 'o'] {
        assert(x =~= "won't"@);
        assert(x != "can't"@) by {
            assert(x[0] != "can't"@[0]);
        }
    } else {
        if x == "can't"@ {
            assert(w =~= x.subrange(0, 2));
            assert(x.subrange(0, 2) =~= seq!['c', 'a']);
        }
        if x == "won't"@ {
            assert(w =~= x.subrange(0, 2));
            assert(x.subrange(0, 2) =~= seq!['w', 'o']);
        }
        assert(x.subrange(n - 3, n) =~= seq!['n', '\'', 't']);
        assert(x.subrange(0, n - 3) =~= w);
    }
}

/// A text between two equal quote characters, double or single, is wrapped
/// in quotes; two different quote characters, or a first character that is
/// no quote, are not.
pub proof fn lemma_quote_pairs(x: Seq<char>, s: Seq<char>)
    ensures
        is_wrapped_in_quotes(seq!['"'] + x + seq!['"']),
        is_wrapped_in_quotes(seq!['\''] + x + seq!['\'']),
        !is_wrapped_in_quotes(seq!['"'] + x + seq!['\'']),
        !is_wrapped_in_quotes(seq!['\''] + x + seq!['"']),
        s.len() == 0 || (s[0] != '"' && s[0] != '\'') ==> !is_wrapped_in_quotes(s),
{
    let a = seq!['"'] + x + seq!['"'];
    assert(a[0] == '"' && a[a.len() - 1] == '"');
    let b = seq!['\''] + x + seq!['\''];
    assert(b[0] == '\'' && b[b.len() - 1] == '\'');
    let c = seq!['"'] + x + seq!['\''];
    assert(c[0] == '"' && c[c.len() - 1] == '\'');
    let d = seq!['\''] + x + seq!['"'];
    assert(d[0] == '\'' && d[d.len() - 1] == '"');
}

} // verus!
